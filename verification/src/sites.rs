//! The crawled food sites: where each one starts and which of its URLs are recipes.

use vstd::prelude::*;
use crate::text::{contains, starts_with, str_eq, concat, seq_contains, seq_starts_with, views};

verus! {

/// A test on URLs: every `must_*` list holds of the URL and no `must_not_*` list does.
pub struct UrlRule {
    /// Substrings that must all occur in the URL.
    pub must_contain: Vec<String>,
    /// Prefixes that the URL must all begin with.
    pub must_start_with: Vec<String>,
    /// Whole URLs that are refused.
    pub must_not_equal: Vec<String>,
    /// Prefixes that no accepted URL begins with.
    pub must_not_start_with: Vec<String>,
    /// Substrings that no accepted URL contains.
    pub must_not_contain: Vec<String>,
}

impl UrlRule {
    /// Whether the rule accepts `url`.
    pub open spec fn accepts(&self, url: Seq<char>) -> bool {
        &&& forall|i: int|
            0 <= i < self.must_contain@.len() ==> seq_contains(url, #[trigger] self.must_contain@[i]@)
        &&& forall|i: int|
            0 <= i < self.must_start_with@.len() ==> seq_starts_with(
                url,
                #[trigger] self.must_start_with@[i]@,
            )
        &&& forall|i: int|
            0 <= i < self.must_not_equal@.len() ==> url != #[trigger] self.must_not_equal@[i]@
        &&& forall|i: int|
            0 <= i < self.must_not_start_with@.len() ==> !seq_starts_with(
                url,
                #[trigger] self.must_not_start_with@[i]@,
            )
        &&& forall|i: int|
            0 <= i < self.must_not_contain@.len() ==> !seq_contains(
                url,
                #[trigger] self.must_not_contain@[i]@,
            )
    }

    /// Whether the rule accepts `url`.
    pub fn test(&self, url: &str) -> (r: bool)
        ensures
            r == self.accepts(url@),
    {
        all_contained(url, &self.must_contain) && all_prefixes(url, &self.must_start_with)
            && !any_equal(url, &self.must_not_equal) && !any_prefix(url, &self.must_not_start_with)
            && !any_contained(url, &self.must_not_contain)
    }

    /// The rule that accepts every URL: all five of its lists are empty.
    pub fn accept_all() -> (r: UrlRule)
        ensures
            forall|url: Seq<char>| r.accepts(url),
            r.must_contain@.len() == 0,
            r.must_start_with@.len() == 0,
            r.must_not_equal@.len() == 0,
            r.must_not_start_with@.len() == 0,
            r.must_not_contain@.len() == 0,
    {
        UrlRule {
            must_contain: Vec::new(),
            must_start_with: Vec::new(),
            must_not_equal: Vec::new(),
            must_not_start_with: Vec::new(),
            must_not_contain: Vec::new(),
        }
    }

    /// The rule that accepts exactly the URLs containing `needle`.
    pub fn containing(needle: &str) -> (r: UrlRule)
        ensures
            forall|url: Seq<char>| r.accepts(url) == seq_contains(url, needle@),
    {
        let mut must_contain = Vec::new();
        must_contain.push(needle.to_owned());
        let r = UrlRule {
            must_contain,
            must_start_with: Vec::new(),
            must_not_equal: Vec::new(),
            must_not_start_with: Vec::new(),
            must_not_contain: Vec::new(),
        };
        assert forall|url: Seq<char>| r.accepts(url) == seq_contains(url, needle@) by {
            assert(r.must_contain@[0]@ == needle@);
        }
        r
    }
}

fn all_contained(url: &str, needles: &Vec<String>) -> (r: bool)
    ensures
        r == forall|i: int| 0 <= i < needles@.len() ==> seq_contains(url@, #[trigger] needles@[i]@),
{
    let n = needles.len();
    for i in 0..n
        invariant
            n == needles@.len(),
            forall|k: int| 0 <= k < i ==> seq_contains(url@, #[trigger] needles@[k]@),
    {
        if !contains(url, needles[i].as_str()) {
            return false;
        }
    }
    true
}

fn any_contained(url: &str, needles: &Vec<String>) -> (r: bool)
    ensures
        r == exists|i: int| 0 <= i < needles@.len() && seq_contains(url@, #[trigger] needles@[i]@),
{
    let n = needles.len();
    for i in 0..n
        invariant
            n == needles@.len(),
            forall|k: int| 0 <= k < i ==> !seq_contains(url@, #[trigger] needles@[k]@),
    {
        if contains(url, needles[i].as_str()) {
            return true;
        }
    }
    false
}

fn all_prefixes(url: &str, prefixes: &Vec<String>) -> (r: bool)
    ensures
        r == forall|i: int|
            0 <= i < prefixes@.len() ==> seq_starts_with(url@, #[trigger] prefixes@[i]@),
{
    let n = prefixes.len();
    for i in 0..n
        invariant
            n == prefixes@.len(),
            forall|k: int| 0 <= k < i ==> seq_starts_with(url@, #[trigger] prefixes@[k]@),
    {
        if !starts_with(url, prefixes[i].as_str()) {
            return false;
        }
    }
    true
}

fn any_prefix(url: &str, prefixes: &Vec<String>) -> (r: bool)
    ensures
        r == exists|i: int|
            0 <= i < prefixes@.len() && seq_starts_with(url@, #[trigger] prefixes@[i]@),
{
    let n = prefixes.len();
    for i in 0..n
        invariant
            n == prefixes@.len(),
            forall|k: int| 0 <= k < i ==> !seq_starts_with(url@, #[trigger] prefixes@[k]@),
    {
        if starts_with(url, prefixes[i].as_str()) {
            return true;
        }
    }
    false
}

fn any_equal(url: &str, items: &Vec<String>) -> (r: bool)
    ensures
        r == exists|i: int| 0 <= i < items@.len() && url@ == #[trigger] items@[i]@,
{
    let n = items.len();
    for i in 0..n
        invariant
            n == items@.len(),
            forall|k: int| 0 <= k < i ==> url@ != #[trigger] items@[k]@,
    {
        if str_eq(url, items[i].as_str()) {
            return true;
        }
    }
    false
}

/// Owned copies of a list of string slices.
pub fn owned_strings(items: &[&str]) -> (r: Vec<String>)
    ensures
        r@.len() == items@.len(),
        forall|i: int| 0 <= i < items@.len() ==> #[trigger] r@[i]@ == items@[i]@,
{
    let mut r: Vec<String> = Vec::new();
    let n = items.len();
    for i in 0..n
        invariant
            n == items@.len(),
            r@.len() == i,
            forall|k: int| 0 <= k < i ==> #[trigger] r@[k]@ == items@[k]@,
    {
        r.push(items[i].to_owned());
    }
    r
}


/// The views of a list of string slices.
pub open spec fn str_views(items: Seq<&str>) -> Seq<Seq<char>> {
    items.map_values(|x: &str| x@)
}

fn strings_of(items: &[&str]) -> (r: Vec<String>)
    ensures
        views(r@) == str_views(items@),
{
    let r = owned_strings(items);
    assert(views(r@) =~= str_views(items@));
    r
}

/// A rule built from its five lists.
pub fn url_rule(
    must_contain: &[&str],
    must_start_with: &[&str],
    must_not_equal: &[&str],
    must_not_start_with: &[&str],
    must_not_contain: &[&str],
) -> (r: UrlRule)
    ensures
        views(r.must_contain@) == str_views(must_contain@),
        views(r.must_start_with@) == str_views(must_start_with@),
        views(r.must_not_equal@) == str_views(must_not_equal@),
        views(r.must_not_start_with@) == str_views(must_not_start_with@),
        views(r.must_not_contain@) == str_views(must_not_contain@),
{
    UrlRule {
        must_contain: strings_of(must_contain),
        must_start_with: strings_of(must_start_with),
        must_not_equal: strings_of(must_not_equal),
        must_not_start_with: strings_of(must_not_start_with),
        must_not_contain: strings_of(must_not_contain),
    }
}

/// One crawled site.
pub struct SiteConfig {
    /// A short name for logs.
    pub name: String,
    /// The site's origin, without a trailing slash.
    pub base_url: String,
    /// Paths, below `base_url`, where the crawl starts.
    pub seed_paths: Vec<String>,
    /// Which URLs of the site are recipe pages.
    pub recipe_url_test: UrlRule,
    /// The CSS selector of recipe links on listing pages.
    pub recipe_link_selector: String,
    /// Whether the crawl walks the sitemap rather than listing pages.
    pub use_sitemap: bool,
}

impl SiteConfig {
    /// Whether `url` is a recipe page of this site.
    pub fn is_recipe_url(&self, url: &str) -> (r: bool)
        ensures
            r == self.recipe_url_test.accepts(url@),
    {
        self.recipe_url_test.test(url)
    }

    /// The URLs where the crawl of this site starts: each seed path appended to the base URL.
    pub fn seed_urls(&self) -> (r: Vec<String>)
        ensures
            r@.len() == self.seed_paths@.len(),
            forall|i: int|
                0 <= i < r@.len() ==> #[trigger] r@[i]@ == self.base_url@ + self.seed_paths@[i]@,
    {
        let mut r: Vec<String> = Vec::new();
        let n = self.seed_paths.len();
        for i in 0..n
            invariant
                n == self.seed_paths@.len(),
                r@.len() == i,
                forall|k: int|
                    0 <= k < i ==> #[trigger] r@[k]@ == self.base_url@ + self.seed_paths@[k]@,
        {
            r.push(concat(self.base_url.as_str(), self.seed_paths[i].as_str()));
        }
        r
    }
}

/// The selector of recipe links on the large recipe sites.
pub open spec fn recipe_link_selector_spec() -> Seq<char> {
    "a[href*=\"/recipe\"]"@
}

fn sitemap_site(name: &str, base_url: &str, rule: UrlRule, selector: &str) -> (r: SiteConfig)
    ensures
        r.name@ == name@,
        r.base_url@ == base_url@,
        views(r.seed_paths@) == seq!["/sitemap.xml"@],
        r.recipe_url_test == rule,
        r.recipe_link_selector@ == selector@,
        r.use_sitemap,
{
    let seed_paths = strings_of(&["/sitemap.xml"]);
    SiteConfig {
        name: name.to_owned(),
        base_url: base_url.to_owned(),
        seed_paths,
        recipe_url_test: rule,
        recipe_link_selector: selector.to_owned(),
        use_sitemap: true,
    }
}

/// The configuration that [`allrecipes`] gives.
pub open spec fn allrecipes_config(s: SiteConfig) -> bool {
    &&& s.name@ =~= "allrecipes"@
    &&& s.base_url@ =~= "https://www.allrecipes.com"@
    &&& views(s.seed_paths@) =~= seq!["/sitemap.xml"@]
    &&& s.recipe_link_selector@ =~= "a[href*=\"/recipe/\"]"@
    &&& s.use_sitemap
    &&& views(s.recipe_url_test.must_contain@) =~= seq!["allrecipes.com/recipe/"@]
    &&& views(s.recipe_url_test.must_start_with@) =~= Seq::<Seq<char>>::empty()
    &&& views(s.recipe_url_test.must_not_equal@) =~= Seq::<Seq<char>>::empty()
    &&& views(s.recipe_url_test.must_not_start_with@) =~= Seq::<Seq<char>>::empty()
    &&& views(s.recipe_url_test.must_not_contain@) =~= seq!["/photo/"@, "/video/"@, "#"@]
}

/// allrecipes.com: recipe pages live under `/recipe/`; photo and video pages and
/// fragments are not recipes.
pub fn allrecipes() -> (r: SiteConfig)
    ensures
        allrecipes_config(r),
{
    let rule = url_rule(&["allrecipes.com/recipe/"], &[], &[], &[], &["/photo/", "/video/", "#"]);
    sitemap_site("allrecipes", "https://www.allrecipes.com", rule, "a[href*=\"/recipe/\"]")
}

/// The configuration that [`bonappetit`] gives.
pub open spec fn bonappetit_config(s: SiteConfig) -> bool {
    &&& s.name@ =~= "bonappetit"@
    &&& s.base_url@ =~= "https://www.bonappetit.com"@
    &&& views(s.seed_paths@) =~= seq!["/sitemap.xml"@]
    &&& s.recipe_link_selector@ =~= "a[href*=\"/recipe/\"]"@
    &&& s.use_sitemap
    &&& views(s.recipe_url_test.must_contain@) =~= seq!["bonappetit.com/recipe/"@]
    &&& views(s.recipe_url_test.must_start_with@) =~= Seq::<Seq<char>>::empty()
    &&& views(s.recipe_url_test.must_not_equal@) =~= Seq::<Seq<char>>::empty()
    &&& views(s.recipe_url_test.must_not_start_with@) =~= Seq::<Seq<char>>::empty()
    &&& views(s.recipe_url_test.must_not_contain@) =~= seq!["#"@, "/gallery/"@]
}

/// bonappetit.com: recipe pages live under `/recipe/`; galleries and fragments are not recipes.
pub fn bonappetit() -> (r: SiteConfig)
    ensures
        bonappetit_config(r),
{
    let rule = url_rule(
        &["bonappetit.com/recipe/"],
        &[],
        &[],
        &[],
        &["#", "/gallery/"],
    );
    sitemap_site("bonappetit", "https://www.bonappetit.com", rule, "a[href*=\"/recipe/\"]")
}

/// The configuration that [`food52`] gives.
pub open spec fn food52_config(s: SiteConfig) -> bool {
    &&& s.name@ =~= "food52"@
    &&& s.base_url@ =~= "https://food52.com"@
    &&& views(s.seed_paths@) =~= seq!["/sitemap.xml"@]
    &&& s.recipe_link_selector@ =~= "a[href*=\"/recipe\"]"@
    &&& s.use_sitemap
    &&& views(s.recipe_url_test.must_contain@) =~= seq!["food52.com/recipes/"@]
    &&& views(s.recipe_url_test.must_start_with@) =~= Seq::<Seq<char>>::empty()
    &&& views(s.recipe_url_test.must_not_equal@) =~= Seq::<Seq<char>>::empty()
    &&& views(s.recipe_url_test.must_not_start_with@) =~= Seq::<Seq<char>>::empty()
    &&& views(s.recipe_url_test.must_not_contain@) =~= seq!["#"@]
}

/// food52.com: recipe pages live under `/recipes/`.
pub fn food52() -> (r: SiteConfig)
    ensures
        food52_config(r),
{
    let rule = url_rule(
        &["food52.com/recipes/"],
        &[],
        &[],
        &[],
        &["#"],
    );
    sitemap_site("food52", "https://food52.com", rule, "a[href*=\"/recipe\"]")
}

/// The configuration that [`simply_recipes`] gives.
pub open spec fn simply_recipes_config(s: SiteConfig) -> bool {
    &&& s.name@ =~= "simplyrecipes"@
    &&& s.base_url@ =~= "https://www.simplyrecipes.com"@
    &&& views(s.seed_paths@) =~= seq!["/sitemap.xml"@]
    &&& s.recipe_link_selector@ =~= "a[href*=\"/recipe\"]"@
    &&& s.use_sitemap
    &&& views(s.recipe_url_test.must_contain@) =~= seq!["simplyrecipes.com/"@]
    &&& views(s.recipe_url_test.must_start_with@) =~= Seq::<Seq<char>>::empty()
    &&& views(s.recipe_url_test.must_not_equal@) =~= Seq::<Seq<char>>::empty()
    &&& views(s.recipe_url_test.must_not_start_with@) =~= Seq::<Seq<char>>::empty()
    &&& views(s.recipe_url_test.must_not_contain@) =~= seq!["/how-to/"@, "/author/"@, "/tag/"@, "/page/"@, "/terms"@, "/privacy"@, "#"@]
}

/// simplyrecipes.com: any page of the site except how-to guides, author, tag and listing pages and legal pages.
pub fn simply_recipes() -> (r: SiteConfig)
    ensures
        simply_recipes_config(r),
{
    let rule = url_rule(
        &["simplyrecipes.com/"],
        &[],
        &[],
        &[],
        &["/how-to/", "/author/", "/tag/", "/page/", "/terms", "/privacy", "#"],
    );
    sitemap_site("simplyrecipes", "https://www.simplyrecipes.com", rule, "a[href*=\"/recipe\"]")
}

/// The configuration that [`pioneer_woman`] gives.
pub open spec fn pioneer_woman_config(s: SiteConfig) -> bool {
    &&& s.name@ =~= "pioneerwoman"@
    &&& s.base_url@ =~= "https://www.thepioneerwoman.com"@
    &&& views(s.seed_paths@) =~= seq!["/sitemap.xml"@]
    &&& s.recipe_link_selector@ =~= "a[href*=\"/recipe\"]"@
    &&& s.use_sitemap
    &&& views(s.recipe_url_test.must_contain@) =~= seq!["thepioneerwoman.com/food-cooking/recipes/"@]
    &&& views(s.recipe_url_test.must_start_with@) =~= Seq::<Seq<char>>::empty()
    &&& views(s.recipe_url_test.must_not_equal@) =~= Seq::<Seq<char>>::empty()
    &&& views(s.recipe_url_test.must_not_start_with@) =~= Seq::<Seq<char>>::empty()
    &&& views(s.recipe_url_test.must_not_contain@) =~= seq!["#"@]
}

/// thepioneerwoman.com: recipe pages live under `/food-cooking/recipes/`.
pub fn pioneer_woman() -> (r: SiteConfig)
    ensures
        pioneer_woman_config(r),
{
    let rule = url_rule(
        &["thepioneerwoman.com/food-cooking/recipes/"],
        &[],
        &[],
        &[],
        &["#"],
    );
    sitemap_site("pioneerwoman", "https://www.thepioneerwoman.com", rule, "a[href*=\"/recipe\"]")
}

/// The configuration that [`taste_of_home`] gives.
pub open spec fn taste_of_home_config(s: SiteConfig) -> bool {
    &&& s.name@ =~= "tasteofhome"@
    &&& s.base_url@ =~= "https://www.tasteofhome.com"@
    &&& views(s.seed_paths@) =~= seq!["/sitemap.xml"@]
    &&& s.recipe_link_selector@ =~= "a[href*=\"/recipe\"]"@
    &&& s.use_sitemap
    &&& views(s.recipe_url_test.must_contain@) =~= seq!["tasteofhome.com/recipes/"@]
    &&& views(s.recipe_url_test.must_start_with@) =~= Seq::<Seq<char>>::empty()
    &&& views(s.recipe_url_test.must_not_equal@) =~= Seq::<Seq<char>>::empty()
    &&& views(s.recipe_url_test.must_not_start_with@) =~= Seq::<Seq<char>>::empty()
    &&& views(s.recipe_url_test.must_not_contain@) =~= seq!["#"@]
}

/// tasteofhome.com: recipe pages live under `/recipes/`.
pub fn taste_of_home() -> (r: SiteConfig)
    ensures
        taste_of_home_config(r),
{
    let rule = url_rule(
        &["tasteofhome.com/recipes/"],
        &[],
        &[],
        &[],
        &["#"],
    );
    sitemap_site("tasteofhome", "https://www.tasteofhome.com", rule, "a[href*=\"/recipe\"]")
}

/// The configuration that [`serious_eats`] gives.
pub open spec fn serious_eats_config(s: SiteConfig) -> bool {
    &&& s.name@ =~= "seriouseats"@
    &&& s.base_url@ =~= "https://www.seriouseats.com"@
    &&& views(s.seed_paths@) =~= seq!["/sitemap.xml"@]
    &&& s.recipe_link_selector@ =~= "a[href*=\"/recipe\"]"@
    &&& s.use_sitemap
    &&& views(s.recipe_url_test.must_contain@) =~= seq!["seriouseats.com/"@]
    &&& views(s.recipe_url_test.must_start_with@) =~= Seq::<Seq<char>>::empty()
    &&& views(s.recipe_url_test.must_not_equal@) =~= Seq::<Seq<char>>::empty()
    &&& views(s.recipe_url_test.must_not_start_with@) =~= Seq::<Seq<char>>::empty()
    &&& views(s.recipe_url_test.must_not_contain@) =~= Seq::<Seq<char>>::empty()
}

/// seriouseats.com: every page of the site is taken.
pub fn serious_eats() -> (r: SiteConfig)
    ensures
        serious_eats_config(r),
{
    let rule = url_rule(
        &["seriouseats.com/"],
        &[],
        &[],
        &[],
        &[],
    );
    sitemap_site("seriouseats", "https://www.seriouseats.com", rule, "a[href*=\"/recipe\"]")
}

/// The configuration that [`cookie_and_kate`] gives.
pub open spec fn cookie_and_kate_config(s: SiteConfig) -> bool {
    &&& s.name@ =~= "cookieandkate"@
    &&& s.base_url@ =~= "https://cookieandkate.com"@
    &&& views(s.seed_paths@) =~= seq!["/sitemap.xml"@]
    &&& s.recipe_link_selector@ =~= "article a[href], .post a[href], .archive a[href], h2 a[href], h3 a[href]"@
    &&& s.use_sitemap
    &&& views(s.recipe_url_test.must_contain@) =~= Seq::<Seq<char>>::empty()
    &&& views(s.recipe_url_test.must_start_with@) =~= seq!["https://cookieandkate.com/"@]
    &&& views(s.recipe_url_test.must_not_equal@) =~= seq!["https://cookieandkate.com/"@]
    &&& views(s.recipe_url_test.must_not_start_with@) =~= seq!["https://cookieandkate.com/about"@, "https://cookieandkate.com/cookbook"@, "https://cookieandkate.com/favorite"@, "https://cookieandkate.com/shop"@, "https://cookieandkate.com/contact"@, "https://cookieandkate.com/recipe-index"@, "https://cookieandkate.com/privacy"@, "https://cookieandkate.com/category"@]
    &&& views(s.recipe_url_test.must_not_contain@) =~= seq!["/author/"@, "/tag/"@, "/page/"@, "/feed/"@, "/wp-"@, "/comment-page-"@, "/terms"@, "/tos"@, "/meal-plan"@, "/newsletter"@, "/policy"@, "#"@]
}

/// cookieandkate.com: a blog whose posts sit directly below the root; the root itself, the listed site sections and archive, feed and legal pages are not recipes.
pub fn cookie_and_kate() -> (r: SiteConfig)
    ensures
        cookie_and_kate_config(r),
{
    let rule = url_rule(
        &[],
        &["https://cookieandkate.com/"],
        &["https://cookieandkate.com/"],
        &["https://cookieandkate.com/about", "https://cookieandkate.com/cookbook", "https://cookieandkate.com/favorite", "https://cookieandkate.com/shop", "https://cookieandkate.com/contact", "https://cookieandkate.com/recipe-index", "https://cookieandkate.com/privacy", "https://cookieandkate.com/category"],
        &["/author/", "/tag/", "/page/", "/feed/", "/wp-", "/comment-page-", "/terms", "/tos", "/meal-plan", "/newsletter", "/policy", "#"],
    );
    sitemap_site("cookieandkate", "https://cookieandkate.com", rule, "article a[href], .post a[href], .archive a[href], h2 a[href], h3 a[href]")
}

/// The configuration that [`pinch_of_yum`] gives.
pub open spec fn pinch_of_yum_config(s: SiteConfig) -> bool {
    &&& s.name@ =~= "pinchofyum"@
    &&& s.base_url@ =~= "https://pinchofyum.com"@
    &&& views(s.seed_paths@) =~= seq!["/sitemap.xml"@]
    &&& s.recipe_link_selector@ =~= "article a[href], .post a[href], .archive a[href], h2 a[href], h3 a[href]"@
    &&& s.use_sitemap
    &&& views(s.recipe_url_test.must_contain@) =~= Seq::<Seq<char>>::empty()
    &&& views(s.recipe_url_test.must_start_with@) =~= seq!["https://pinchofyum.com/"@]
    &&& views(s.recipe_url_test.must_not_equal@) =~= seq!["https://pinchofyum.com/"@]
    &&& views(s.recipe_url_test.must_not_start_with@) =~= seq!["https://pinchofyum.com/about"@, "https://pinchofyum.com/shop"@, "https://pinchofyum.com/resources"@, "https://pinchofyum.com/pinch"@, "https://pinchofyum.com/contact"@, "https://pinchofyum.com/recipe-index"@, "https://pinchofyum.com/category"@]
    &&& views(s.recipe_url_test.must_not_contain@) =~= seq!["/author/"@, "/tag/"@, "/page/"@, "/feed/"@, "/wp-"@, "/comment-page-"@, "/terms"@, "/tos"@, "/meal-plan"@, "/newsletter"@, "/policy"@, "#"@]
}

/// pinchofyum.com: a blog whose posts sit directly below the root; the root itself, the listed site sections and archive, feed and legal pages are not recipes.
pub fn pinch_of_yum() -> (r: SiteConfig)
    ensures
        pinch_of_yum_config(r),
{
    let rule = url_rule(
        &[],
        &["https://pinchofyum.com/"],
        &["https://pinchofyum.com/"],
        &["https://pinchofyum.com/about", "https://pinchofyum.com/shop", "https://pinchofyum.com/resources", "https://pinchofyum.com/pinch", "https://pinchofyum.com/contact", "https://pinchofyum.com/recipe-index", "https://pinchofyum.com/category"],
        &["/author/", "/tag/", "/page/", "/feed/", "/wp-", "/comment-page-", "/terms", "/tos", "/meal-plan", "/newsletter", "/policy", "#"],
    );
    sitemap_site("pinchofyum", "https://pinchofyum.com", rule, "article a[href], .post a[href], .archive a[href], h2 a[href], h3 a[href]")
}

/// The configuration that [`half_baked_harvest`] gives.
pub open spec fn half_baked_harvest_config(s: SiteConfig) -> bool {
    &&& s.name@ =~= "halfbakedharvest"@
    &&& s.base_url@ =~= "https://www.halfbakedharvest.com"@
    &&& views(s.seed_paths@) =~= seq!["/sitemap.xml"@]
    &&& s.recipe_link_selector@ =~= "article a[href], .post a[href], .archive a[href], h2 a[href], h3 a[href]"@
    &&& s.use_sitemap
    &&& views(s.recipe_url_test.must_contain@) =~= Seq::<Seq<char>>::empty()
    &&& views(s.recipe_url_test.must_start_with@) =~= seq!["https://www.halfbakedharvest.com/"@]
    &&& views(s.recipe_url_test.must_not_equal@) =~= seq!["https://www.halfbakedharvest.com/"@]
    &&& views(s.recipe_url_test.must_not_start_with@) =~= seq!["https://www.halfbakedharvest.com/about"@, "https://www.halfbakedharvest.com/cookbook"@, "https://www.halfbakedharvest.com/shop"@, "https://www.halfbakedharvest.com/contact"@, "https://www.halfbakedharvest.com/recipe-index"@, "https://www.halfbakedharvest.com/privacy"@, "https://www.halfbakedharvest.com/category"@]
    &&& views(s.recipe_url_test.must_not_contain@) =~= seq!["/author/"@, "/tag/"@, "/page/"@, "/feed/"@, "/wp-"@, "/comment-page-"@, "/terms"@, "/tos"@, "/meal-plan"@, "/newsletter"@, "/policy"@, "#"@]
}

/// halfbakedharvest.com: a blog whose posts sit directly below the root; the root itself, the listed site sections and archive, feed and legal pages are not recipes.
pub fn half_baked_harvest() -> (r: SiteConfig)
    ensures
        half_baked_harvest_config(r),
{
    let rule = url_rule(
        &[],
        &["https://www.halfbakedharvest.com/"],
        &["https://www.halfbakedharvest.com/"],
        &["https://www.halfbakedharvest.com/about", "https://www.halfbakedharvest.com/cookbook", "https://www.halfbakedharvest.com/shop", "https://www.halfbakedharvest.com/contact", "https://www.halfbakedharvest.com/recipe-index", "https://www.halfbakedharvest.com/privacy", "https://www.halfbakedharvest.com/category"],
        &["/author/", "/tag/", "/page/", "/feed/", "/wp-", "/comment-page-", "/terms", "/tos", "/meal-plan", "/newsletter", "/policy", "#"],
    );
    sitemap_site("halfbakedharvest", "https://www.halfbakedharvest.com", rule, "article a[href], .post a[href], .archive a[href], h2 a[href], h3 a[href]")
}

/// The configuration that [`love_and_lemons`] gives.
pub open spec fn love_and_lemons_config(s: SiteConfig) -> bool {
    &&& s.name@ =~= "loveandlemons"@
    &&& s.base_url@ =~= "https://www.loveandlemons.com"@
    &&& views(s.seed_paths@) =~= seq!["/sitemap.xml"@]
    &&& s.recipe_link_selector@ =~= "article a[href], .post a[href], .archive a[href], h2 a[href], h3 a[href]"@
    &&& s.use_sitemap
    &&& views(s.recipe_url_test.must_contain@) =~= Seq::<Seq<char>>::empty()
    &&& views(s.recipe_url_test.must_start_with@) =~= seq!["https://www.loveandlemons.com/"@]
    &&& views(s.recipe_url_test.must_not_equal@) =~= seq!["https://www.loveandlemons.com/"@]
    &&& views(s.recipe_url_test.must_not_start_with@) =~= seq!["https://www.loveandlemons.com/about"@, "https://www.loveandlemons.com/cookbook"@, "https://www.loveandlemons.com/shop"@, "https://www.loveandlemons.com/contact"@, "https://www.loveandlemons.com/recipes"@, "https://www.loveandlemons.com/category"@]
    &&& views(s.recipe_url_test.must_not_contain@) =~= seq!["/author/"@, "/tag/"@, "/page/"@, "/feed/"@, "/wp-"@, "/comment-page-"@, "/terms"@, "/tos"@, "/meal-plan"@, "/newsletter"@, "/policy"@, "#"@]
}

/// loveandlemons.com: a blog whose posts sit directly below the root; the root itself, the listed site sections and archive, feed and legal pages are not recipes.
pub fn love_and_lemons() -> (r: SiteConfig)
    ensures
        love_and_lemons_config(r),
{
    let rule = url_rule(
        &[],
        &["https://www.loveandlemons.com/"],
        &["https://www.loveandlemons.com/"],
        &["https://www.loveandlemons.com/about", "https://www.loveandlemons.com/cookbook", "https://www.loveandlemons.com/shop", "https://www.loveandlemons.com/contact", "https://www.loveandlemons.com/recipes", "https://www.loveandlemons.com/category"],
        &["/author/", "/tag/", "/page/", "/feed/", "/wp-", "/comment-page-", "/terms", "/tos", "/meal-plan", "/newsletter", "/policy", "#"],
    );
    sitemap_site("loveandlemons", "https://www.loveandlemons.com", rule, "article a[href], .post a[href], .archive a[href], h2 a[href], h3 a[href]")
}

/// The configuration that [`recipe_tin_eats`] gives.
pub open spec fn recipe_tin_eats_config(s: SiteConfig) -> bool {
    &&& s.name@ =~= "recipetineats"@
    &&& s.base_url@ =~= "https://www.recipetineats.com"@
    &&& views(s.seed_paths@) =~= seq!["/sitemap.xml"@]
    &&& s.recipe_link_selector@ =~= "article a[href], .post a[href], .archive a[href], h2 a[href], h3 a[href]"@
    &&& s.use_sitemap
    &&& views(s.recipe_url_test.must_contain@) =~= Seq::<Seq<char>>::empty()
    &&& views(s.recipe_url_test.must_start_with@) =~= seq!["https://www.recipetineats.com/"@]
    &&& views(s.recipe_url_test.must_not_equal@) =~= seq!["https://www.recipetineats.com/"@]
    &&& views(s.recipe_url_test.must_not_start_with@) =~= seq!["https://www.recipetineats.com/about"@, "https://www.recipetineats.com/cookbook"@, "https://www.recipetineats.com/shop"@, "https://www.recipetineats.com/contact"@, "https://www.recipetineats.com/recipes"@, "https://www.recipetineats.com/recipe-index"@, "https://www.recipetineats.com/category"@]
    &&& views(s.recipe_url_test.must_not_contain@) =~= seq!["/author/"@, "/tag/"@, "/page/"@, "/feed/"@, "/wp-"@, "/comment-page-"@, "/terms"@, "/tos"@, "/meal-plan"@, "/newsletter"@, "/policy"@, "#"@]
}

/// recipetineats.com: a blog whose posts sit directly below the root; the root itself, the listed site sections and archive, feed and legal pages are not recipes.
pub fn recipe_tin_eats() -> (r: SiteConfig)
    ensures
        recipe_tin_eats_config(r),
{
    let rule = url_rule(
        &[],
        &["https://www.recipetineats.com/"],
        &["https://www.recipetineats.com/"],
        &["https://www.recipetineats.com/about", "https://www.recipetineats.com/cookbook", "https://www.recipetineats.com/shop", "https://www.recipetineats.com/contact", "https://www.recipetineats.com/recipes", "https://www.recipetineats.com/recipe-index", "https://www.recipetineats.com/category"],
        &["/author/", "/tag/", "/page/", "/feed/", "/wp-", "/comment-page-", "/terms", "/tos", "/meal-plan", "/newsletter", "/policy", "#"],
    );
    sitemap_site("recipetineats", "https://www.recipetineats.com", rule, "article a[href], .post a[href], .archive a[href], h2 a[href], h3 a[href]")
}

/// The configuration that [`minimalist_baker`] gives.
pub open spec fn minimalist_baker_config(s: SiteConfig) -> bool {
    &&& s.name@ =~= "minimalistbaker"@
    &&& s.base_url@ =~= "https://minimalistbaker.com"@
    &&& views(s.seed_paths@) =~= seq!["/sitemap.xml"@]
    &&& s.recipe_link_selector@ =~= "article a[href], .post a[href], .archive a[href], h2 a[href], h3 a[href]"@
    &&& s.use_sitemap
    &&& views(s.recipe_url_test.must_contain@) =~= Seq::<Seq<char>>::empty()
    &&& views(s.recipe_url_test.must_start_with@) =~= seq!["https://minimalistbaker.com/"@]
    &&& views(s.recipe_url_test.must_not_equal@) =~= seq!["https://minimalistbaker.com/"@]
    &&& views(s.recipe_url_test.must_not_start_with@) =~= seq!["https://minimalistbaker.com/about"@, "https://minimalistbaker.com/cookbook"@, "https://minimalistbaker.com/shop"@, "https://minimalistbaker.com/contact"@, "https://minimalistbaker.com/recipes"@, "https://minimalistbaker.com/recipe-index"@, "https://minimalistbaker.com/category"@]
    &&& views(s.recipe_url_test.must_not_contain@) =~= seq!["/author/"@, "/tag/"@, "/page/"@, "/feed/"@, "/wp-"@, "/comment-page-"@, "/terms"@, "/tos"@, "/meal-plan"@, "/newsletter"@, "/policy"@, "#"@]
}

/// minimalistbaker.com: a blog whose posts sit directly below the root; the root itself, the listed site sections and archive, feed and legal pages are not recipes.
pub fn minimalist_baker() -> (r: SiteConfig)
    ensures
        minimalist_baker_config(r),
{
    let rule = url_rule(
        &[],
        &["https://minimalistbaker.com/"],
        &["https://minimalistbaker.com/"],
        &["https://minimalistbaker.com/about", "https://minimalistbaker.com/cookbook", "https://minimalistbaker.com/shop", "https://minimalistbaker.com/contact", "https://minimalistbaker.com/recipes", "https://minimalistbaker.com/recipe-index", "https://minimalistbaker.com/category"],
        &["/author/", "/tag/", "/page/", "/feed/", "/wp-", "/comment-page-", "/terms", "/tos", "/meal-plan", "/newsletter", "/policy", "#"],
    );
    sitemap_site("minimalistbaker", "https://minimalistbaker.com", rule, "article a[href], .post a[href], .archive a[href], h2 a[href], h3 a[href]")
}

/// The configuration that [`budget_bytes`] gives.
pub open spec fn budget_bytes_config(s: SiteConfig) -> bool {
    &&& s.name@ =~= "budgetbytes"@
    &&& s.base_url@ =~= "https://www.budgetbytes.com"@
    &&& views(s.seed_paths@) =~= seq!["/sitemap.xml"@]
    &&& s.recipe_link_selector@ =~= "article a[href], .post a[href], .archive a[href], h2 a[href], h3 a[href]"@
    &&& s.use_sitemap
    &&& views(s.recipe_url_test.must_contain@) =~= Seq::<Seq<char>>::empty()
    &&& views(s.recipe_url_test.must_start_with@) =~= seq!["https://www.budgetbytes.com/"@]
    &&& views(s.recipe_url_test.must_not_equal@) =~= seq!["https://www.budgetbytes.com/"@]
    &&& views(s.recipe_url_test.must_not_start_with@) =~= seq!["https://www.budgetbytes.com/about"@, "https://www.budgetbytes.com/shop"@, "https://www.budgetbytes.com/contact"@, "https://www.budgetbytes.com/how-to"@, "https://www.budgetbytes.com/extra-bytes"@, "https://www.budgetbytes.com/recipes"@, "https://www.budgetbytes.com/meal-plans"@, "https://www.budgetbytes.com/category"@]
    &&& views(s.recipe_url_test.must_not_contain@) =~= seq!["/author/"@, "/tag/"@, "/page/"@, "/feed/"@, "/wp-"@, "/comment-page-"@, "/terms"@, "/tos"@, "/meal-plan"@, "/newsletter"@, "/policy"@, "#"@]
}

/// budgetbytes.com: a blog whose posts sit directly below the root; the root itself, the listed site sections and archive, feed and legal pages are not recipes.
pub fn budget_bytes() -> (r: SiteConfig)
    ensures
        budget_bytes_config(r),
{
    let rule = url_rule(
        &[],
        &["https://www.budgetbytes.com/"],
        &["https://www.budgetbytes.com/"],
        &["https://www.budgetbytes.com/about", "https://www.budgetbytes.com/shop", "https://www.budgetbytes.com/contact", "https://www.budgetbytes.com/how-to", "https://www.budgetbytes.com/extra-bytes", "https://www.budgetbytes.com/recipes", "https://www.budgetbytes.com/meal-plans", "https://www.budgetbytes.com/category"],
        &["/author/", "/tag/", "/page/", "/feed/", "/wp-", "/comment-page-", "/terms", "/tos", "/meal-plan", "/newsletter", "/policy", "#"],
    );
    sitemap_site("budgetbytes", "https://www.budgetbytes.com", rule, "article a[href], .post a[href], .archive a[href], h2 a[href], h3 a[href]")
}

/// Every crawled site, in crawl order.
pub fn all_sites() -> (r: Vec<SiteConfig>)
    ensures
        r@.len() == 14,
        allrecipes_config(r@[0]),
        bonappetit_config(r@[1]),
        food52_config(r@[2]),
        simply_recipes_config(r@[3]),
        pioneer_woman_config(r@[4]),
        taste_of_home_config(r@[5]),
        serious_eats_config(r@[6]),
        cookie_and_kate_config(r@[7]),
        pinch_of_yum_config(r@[8]),
        half_baked_harvest_config(r@[9]),
        love_and_lemons_config(r@[10]),
        recipe_tin_eats_config(r@[11]),
        minimalist_baker_config(r@[12]),
        budget_bytes_config(r@[13]),
        forall|i: int| 0 <= i < r@.len() ==> (#[trigger] r@[i]).use_sitemap,
{
    let mut sites: Vec<SiteConfig> = Vec::new();
    sites.push(allrecipes());
    sites.push(bonappetit());
    sites.push(food52());
    sites.push(simply_recipes());
    sites.push(pioneer_woman());
    sites.push(taste_of_home());
    sites.push(serious_eats());
    sites.push(cookie_and_kate());
    sites.push(pinch_of_yum());
    sites.push(half_baked_harvest());
    sites.push(love_and_lemons());
    sites.push(recipe_tin_eats());
    sites.push(minimalist_baker());
    sites.push(budget_bytes());
    sites
}


/// allrecipes.com crawled through its category listing pages rather than its sitemap;
/// the recipe rule is the one [`allrecipes`] gives.
pub fn allrecipes_pages() -> (r: SiteConfig)
    ensures
        r.name@ == "allrecipes"@,
        r.base_url@ == "https://www.allrecipes.com"@,
        views(r.seed_paths@) == seq!["/recipes/"@, "/recipes/meat-and-poultry/"@, "/recipes/seafood/"@, "/recipes/pasta-and-noodles/"@, "/recipes/salad/"@, "/recipes/soups-stews-and-chili/"@, "/recipes/appetizers-and-snacks/"@, "/recipes/bread/"@, "/recipes/desserts/"@, "/recipes/breakfast-and-brunch/"@, "/recipes/drinks/"@, "/recipes/side-dish/"@, "/recipes/bbq-and-grilling/"@, "/recipes/holidays-and-events/"@, "/recipes/healthy-recipes/"@, "/recipes/quick-and-easy/"@],
        r.recipe_link_selector@ == "a[href*=\"/recipe/\"]"@,
        !r.use_sitemap,
        views(r.recipe_url_test.must_contain@) == seq!["allrecipes.com/recipe/"@],
        views(r.recipe_url_test.must_start_with@) == Seq::<Seq<char>>::empty(),
        views(r.recipe_url_test.must_not_equal@) == Seq::<Seq<char>>::empty(),
        views(r.recipe_url_test.must_not_start_with@) == Seq::<Seq<char>>::empty(),
        views(r.recipe_url_test.must_not_contain@) == seq!["/photo/"@, "/video/"@, "#"@],
{
    let site = allrecipes();
    SiteConfig {
        seed_paths: strings_of(&["/recipes/", "/recipes/meat-and-poultry/", "/recipes/seafood/", "/recipes/pasta-and-noodles/", "/recipes/salad/", "/recipes/soups-stews-and-chili/", "/recipes/appetizers-and-snacks/", "/recipes/bread/", "/recipes/desserts/", "/recipes/breakfast-and-brunch/", "/recipes/drinks/", "/recipes/side-dish/", "/recipes/bbq-and-grilling/", "/recipes/holidays-and-events/", "/recipes/healthy-recipes/", "/recipes/quick-and-easy/"]),
        use_sitemap: false,
        ..site
    }
}

/// bonappetit.com crawled through its category listing pages rather than its sitemap;
/// the recipe rule is that of [`bonappetit`].
pub fn bonappetit_pages() -> (r: SiteConfig)
    ensures
        r.name@ == "bonappetit"@,
        r.base_url@ == "https://www.bonappetit.com"@,
        views(r.seed_paths@) == seq!["/recipes/"@, "/recipes/quick-and-easy/"@, "/recipes/healthyish/"@, "/recipes/vegetarian/"@, "/recipes/vegan/"@, "/recipes/desserts/"@, "/recipes/drinks/"@, "/recipes/pasta/"@, "/recipes/chicken/"@, "/recipes/breakfast/"@],
        r.recipe_link_selector@ == "a[href*=\"/recipe/\"]"@,
        !r.use_sitemap,
        views(r.recipe_url_test.must_contain@) == seq!["bonappetit.com/recipe/"@],
        views(r.recipe_url_test.must_start_with@) == Seq::<Seq<char>>::empty(),
        views(r.recipe_url_test.must_not_equal@) == Seq::<Seq<char>>::empty(),
        views(r.recipe_url_test.must_not_start_with@) == Seq::<Seq<char>>::empty(),
        views(r.recipe_url_test.must_not_contain@) == seq!["#"@, "/gallery/"@],
{
    let site = bonappetit();
    SiteConfig {
        seed_paths: strings_of(&["/recipes/", "/recipes/quick-and-easy/", "/recipes/healthyish/", "/recipes/vegetarian/", "/recipes/vegan/", "/recipes/desserts/", "/recipes/drinks/", "/recipes/pasta/", "/recipes/chicken/", "/recipes/breakfast/"]),
        use_sitemap: false,
        ..site
    }
}

} // verus!
