//! Recipes read from a page's schema.org data, and their wire form.

use vstd::prelude::*;
use recipe_scraper::{Extract, Scrape, SchemaOrgEntry};
use crate::links::{select_attribute, spec_select_attribute};
use crate::text::{contains, seq_contains, split_on, split_seq, views};

verus! {

/// What a schema.org recipe on a page says, in plain values.
#[derive(Debug, Clone)]
pub struct RecipeFields {
    /// The recipe's name.
    pub name: String,
    /// Its ingredient lines.
    pub ingredients: Vec<String>,
    /// Its directions as a flat list; `None` when it has none or gives them in sections.
    pub directions: Option<Vec<String>>,
}

impl DeepView for RecipeFields {
    type V = (Seq<char>, Seq<Seq<char>>, Option<Seq<Seq<char>>>);

    open spec fn deep_view(&self) -> Self::V {
        (self.name@, self.ingredients.deep_view(), self.directions.deep_view())
    }
}

/// What the `recipe-scraper` crate reads from `html`: for each JSON-LD entry that
/// `SchemaOrgEntry::scrape_html` finds, the recipes `extract_recipes` takes from it, each as
/// its name, ingredient lines and flat directions.
pub uninterp spec fn spec_schema_org_recipes(html: Seq<char>) -> Seq<
    Seq<(Seq<char>, Seq<Seq<char>>, Option<Seq<Seq<char>>>)>,
>;

/// Calls `SchemaOrgEntry::scrape_html` and `Extract::extract_recipes` from `recipe-scraper`
/// and converts each recipe field by field: `name`, the `ingredients` list, and
/// `InstructionList::directions` with each instruction's text. The contract only names the
/// outcome.
#[verifier::external_body]
fn schema_org_recipes(html: &str) -> (r: Vec<Vec<RecipeFields>>)
    ensures
        r.deep_view() == spec_schema_org_recipes(html@),
{
    SchemaOrgEntry::scrape_html(html).iter().map(|e| e.extract_recipes().iter().map(|r| RecipeFields {
        name: r.name().to_string(),
        ingredients: r.ingredients().clone().into_iter().collect(),
        directions: r.directions().as_ref().and_then(|l| l.directions()).map(|d| d.iter().map(|i| i.to_string()).collect()),
    }).collect()).collect()
}

/// A recipe as stored.
#[derive(Debug, Clone)]
pub struct ScrapedRecipe {
    /// The page it came from.
    pub url: String,
    /// Its name.
    pub title: String,
    /// Its total time in minutes; 0 when unknown.
    pub total_time: i32,
    /// Its ingredient lines.
    pub ingredients: Vec<String>,
    /// Its steps.
    pub instructions: Vec<String>,
    /// Its picture's URL; empty when there is none.
    pub image: String,
}

/// Why no recipe could be read from a page.
#[derive(Debug)]
pub enum RecipeError {
    /// The page holds no schema.org recipe.
    NoRecipe,
}

impl RecipeError {
    /// The message for this error.
    pub fn message(&self) -> (r: &'static str)
        ensures
            r@ == "no recipe found in HTML"@,
    {
        "no recipe found in HTML"
    }
}

/// The entries' recipes in one list, in order.
pub open spec fn flatten<T>(entries: Seq<Seq<T>>) -> Seq<T>
    decreases entries.len(),
{
    if entries.len() == 0 {
        Seq::empty()
    } else {
        flatten(entries.drop_last()) + entries.last()
    }
}

/// The steps of a recipe: none without directions; a single direction holding line
/// breaks is split into its lines; otherwise the directions as they are.
pub open spec fn instructions_spec(directions: Option<Seq<Seq<char>>>) -> Seq<Seq<char>> {
    match directions {
        None => Seq::empty(),
        Some(all) => if all.len() == 1 && seq_contains(all[0], seq!['\n']) {
            split_seq(all[0], '\n')
        } else {
            all
        },
    }
}

/// The steps of a recipe from its directions.
pub fn split_instructions(directions: Option<Vec<String>>) -> (r: Vec<String>)
    ensures
        views(r@) == instructions_spec(directions.deep_view()),
{
    match directions {
        None => Vec::new(),
        Some(all) => {
            assert(views(all@) =~= all.deep_view());
            if all.len() == 1 && contains(all[0].as_str(), "\n") {
                proof {
                    reveal_strlit("\n");
                }
                assert("\n"@ =~= seq!['\n']);
                split_on(all[0].as_str(), '\n')
            } else {
                proof {
                    reveal_strlit("\n");
                }
                assert("\n"@ =~= seq!['\n']);
                all
            }
        },
    }
}

/// The selector of a page's Open Graph picture.
pub open spec fn og_image_selector() -> Seq<char> {
    "meta[property=\"og:image\"], meta[name=\"og:image\"]"@
}

/// The picture of a page: the `content` of the first Open Graph image element, empty when
/// there is none or it has no `content`.
pub open spec fn image_spec(found: Option<Seq<Option<Seq<char>>>>) -> Seq<char> {
    match found {
        Some(elements) => if elements.len() > 0 {
            match elements[0] {
                Some(c) => c,
                None => Seq::empty(),
            }
        } else {
            Seq::empty()
        },
        None => Seq::empty(),
    }
}

/// The recipe read from a page: its first schema.org recipe, with `total_time` minutes and
/// the picture found among `image_elements`; `Err` when the page has no recipe.
pub open spec fn recipe_spec(
    url: Seq<char>,
    entries: Seq<Seq<(Seq<char>, Seq<Seq<char>>, Option<Seq<Seq<char>>>)>>,
    total_time: i32,
    image_elements: Option<Seq<Option<Seq<char>>>>,
) -> Option<(Seq<char>, Seq<char>, i32, Seq<Seq<char>>, Seq<Seq<char>>, Seq<char>)> {
    let all = flatten(entries);
    if all.len() == 0 {
        None
    } else {
        let first = all[0];
        Some((url, first.0, total_time, first.1, instructions_spec(first.2), image_spec(image_elements)))
    }
}

/// A scraped recipe as its six fields.
pub open spec fn scraped_view(r: ScrapedRecipe) -> (Seq<char>, Seq<char>, i32, Seq<Seq<char>>, Seq<Seq<char>>, Seq<char>) {
    (r.url@, r.title@, r.total_time, views(r.ingredients@), views(r.instructions@), r.image@)
}

/// The result of reading a recipe, as [`recipe_spec`] describes it.
pub open spec fn recipe_result_view(r: Result<ScrapedRecipe, RecipeError>) -> Option<(Seq<char>, Seq<char>, i32, Seq<Seq<char>>, Seq<Seq<char>>, Seq<char>)> {
    match r {
        Ok(x) => Some(scraped_view(x)),
        Err(_) => None,
    }
}

proof fn lemma_flatten_first<T>(entries: Seq<Seq<T>>, k: int)
    requires
        0 <= k < entries.len(),
        forall|j: int| 0 <= j < k ==> #[trigger] entries[j].len() == 0,
    ensures
        flatten(entries.take(k)).len() == 0,
        flatten(entries.take(k + 1)) == entries[k],
    decreases k,
{
    if k > 0 {
        lemma_flatten_first(entries, k - 1);
        assert(entries.take(k).drop_last() =~= entries.take(k - 1));
        assert(flatten(entries.take(k - 1)) + entries[k - 1] =~= Seq::<T>::empty());
    } else {
        assert(entries.take(0) =~= Seq::<Seq<T>>::empty());
    }
    assert(entries.take(k + 1).drop_last() =~= entries.take(k));
    assert(flatten(entries.take(k)) + entries[k] =~= entries[k]);
}

proof fn lemma_flatten_prefix<T>(entries: Seq<Seq<T>>, k: int)
    requires
        0 <= k <= entries.len(),
        flatten(entries.take(k)).len() > 0,
    ensures
        flatten(entries).len() > 0,
        flatten(entries)[0] == flatten(entries.take(k))[0],
    decreases entries.len() - k,
{
    if k < entries.len() {
        assert(entries.take(k + 1).drop_last() =~= entries.take(k));
        lemma_flatten_prefix(entries, k + 1);
    } else {
        assert(entries.take(k) =~= entries);
    }
}

proof fn lemma_flatten_empty<T>(entries: Seq<Seq<T>>)
    requires
        forall|j: int| 0 <= j < entries.len() ==> #[trigger] entries[j].len() == 0,
    ensures
        flatten(entries).len() == 0,
    decreases entries.len(),
{
    if entries.len() > 0 {
        lemma_flatten_empty(entries.drop_last());
        assert(entries.last().len() == 0);
    }
}

/// The recipe read from a page is its first schema.org recipe in document order: reading
/// fails exactly when no entry holds a recipe, and otherwise gives the first recipe of the
/// first entry that holds one, with the page URL, the given time and the picture found.
pub proof fn lemma_first_recipe_on_page(
    url: Seq<char>,
    entries: Seq<Seq<(Seq<char>, Seq<Seq<char>>, Option<Seq<Seq<char>>>)>>,
    total_time: i32,
    image_elements: Option<Seq<Option<Seq<char>>>>,
)
    ensures
        recipe_spec(url, entries, total_time, image_elements) is Some <==> exists|i: int|
            0 <= i < entries.len() && #[trigger] entries[i].len() > 0,
        forall|i: int|
            0 <= i < entries.len() && #[trigger] entries[i].len() > 0 && (forall|j: int|
                0 <= j < i ==> entries[j].len() == 0) ==> recipe_spec(
                url,
                entries,
                total_time,
                image_elements,
            ) == Some(
                (
                    url,
                    entries[i][0].0,
                    total_time,
                    entries[i][0].1,
                    instructions_spec(entries[i][0].2),
                    image_spec(image_elements),
                ),
            ),
{
    if forall|i: int| 0 <= i < entries.len() ==> #[trigger] entries[i].len() == 0 {
        lemma_flatten_empty(entries);
    } else {
        let i = choose|i: int| 0 <= i < entries.len() && !(#[trigger] entries[i].len() == 0);
        assert(entries[i].len() > 0);
    }
    assert forall|i: int|
        0 <= i < entries.len() && #[trigger] entries[i].len() > 0 && (forall|j: int|
            0 <= j < i ==> entries[j].len() == 0) implies recipe_spec(
        url,
        entries,
        total_time,
        image_elements,
    ) == Some(
        (
            url,
            entries[i][0].0,
            total_time,
            entries[i][0].1,
            instructions_spec(entries[i][0].2),
            image_spec(image_elements),
        ),
    ) by {
        assert forall|j: int| 0 <= j < i implies #[trigger] entries[j].len() == 0 by {}
        lemma_flatten_first(entries, i);
        lemma_flatten_prefix(entries, i + 1);
    }
    if exists|i: int| 0 <= i < entries.len() && #[trigger] entries[i].len() > 0 {
        let i = choose|i: int| 0 <= i < entries.len() && #[trigger] entries[i].len() > 0;
        lemma_flatten_first_nonempty(entries, i);
    }
}

proof fn lemma_flatten_first_nonempty<T>(entries: Seq<Seq<T>>, i: int)
    requires
        0 <= i < entries.len(),
        entries[i].len() > 0,
    ensures
        flatten(entries).len() > 0,
    decreases i,
{
    if exists|j: int| 0 <= j < i && #[trigger] entries[j].len() > 0 {
        let j = choose|j: int| 0 <= j < i && #[trigger] entries[j].len() > 0;
        lemma_flatten_first_nonempty(entries, j);
    } else {
        assert forall|j: int| 0 <= j < i implies #[trigger] entries[j].len() == 0 by {}
        lemma_flatten_first(entries, i);
        lemma_flatten_prefix(entries, i + 1);
    }
}

/// Builds the recipe of a page from its schema.org entries, its total time in minutes and
/// the Open Graph image elements found on it.
pub fn recipe_from_parts(
    url: &str,
    entries: Vec<Vec<RecipeFields>>,
    total_time: i32,
    image_elements: Option<Vec<Option<String>>>,
) -> (r: Result<ScrapedRecipe, RecipeError>)
    ensures
        recipe_result_view(r) == recipe_spec(
            url@,
            entries.deep_view(),
            total_time,
            image_elements.deep_view(),
        ),
{
    let image = match &image_elements {
        Some(elements) => if elements.len() > 0 {
            match &elements[0] {
                Some(c) => c.clone(),
                None => String::new(),
            }
        } else {
            String::new()
        },
        None => String::new(),
    };
    let n = entries.len();
    let mut k: usize = 0;
    while k < n
        invariant
            n == entries@.len(),
            k <= n,
            image@ == image_spec(image_elements.deep_view()),
            forall|j: int| 0 <= j < k ==> #[trigger] entries@[j]@.len() == 0,
        decreases n - k,
    {
        if entries[k].len() > 0 {
            proof {
                let ev = entries.deep_view();
                assert forall|j: int| 0 <= j < k implies #[trigger] ev[j].len() == 0 by {
                    assert(entries@[j]@.len() == 0);
                }
                lemma_flatten_first(ev, k as int);
                lemma_flatten_prefix(ev, k + 1);
            }
            let first = &entries[k][0];
            let title = first.name.clone();
            let ingredients = first.ingredients.clone();
            assert(views(ingredients@) =~= first.ingredients.deep_view());
            let directions = match &first.directions {
                Some(d) => {
                    let c = d.clone();
                    assert(c.deep_view() =~= d.deep_view());
                    Some(c)
                },
                None => None,
            };
            let instructions = split_instructions(directions);
            return Ok(
                ScrapedRecipe {
                    url: url.to_owned(),
                    title,
                    total_time,
                    ingredients,
                    instructions,
                    image,
                },
            );
        }
        k = k + 1;
    }
    proof {
        let ev = entries.deep_view();
        assert forall|j: int| 0 <= j < ev.len() implies #[trigger] ev[j].len() == 0 by {
            assert(entries@[j]@.len() == 0);
        }
        lemma_flatten_empty(ev);
    }
    Err(RecipeError::NoRecipe)
}

/// Reads the recipe of the page at `url` from its content `html`: the first schema.org
/// recipe that `recipe-scraper` finds, its steps split as [`instructions_spec`] says, its
/// picture from the page's Open Graph data. `total_time` is the recipe's total time in
/// whole minutes, which the caller works out from the same recipe.
pub fn parse_recipe(html: &str, url: &str, total_time: i32) -> (r: Result<ScrapedRecipe, RecipeError>)
    ensures
        recipe_result_view(r) == recipe_spec(
            url@,
            spec_schema_org_recipes(html@),
            total_time,
            spec_select_attribute(html@, og_image_selector(), "content"@),
        ),
{
    let entries = schema_org_recipes(html);
    let images = select_attribute(
        html,
        "meta[property=\"og:image\"], meta[name=\"og:image\"]",
        "content",
    );
    recipe_from_parts(url, entries, total_time, images)
}

} // verus!
