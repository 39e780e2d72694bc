//! Links on fetched pages: recipe links and links to further listing pages.

use vstd::prelude::*;
use crate::sites::{SiteConfig, UrlRule};
use crate::text::views;
use crate::urls::{resolve_url, resolved, spec_url_join};

verus! {

/// What `scraper` finds: `Html::parse_document(html)`, then for each element matching the
/// CSS selector `selector`, in document order, the value of its attribute `attr`; `None`
/// when the selector does not parse.
pub uninterp spec fn spec_select_attribute(html: Seq<char>, selector: Seq<char>, attr: Seq<char>) -> Option<Seq<Option<Seq<char>>>>;

/// Calls `scraper::Selector::parse(selector)`, `scraper::Html::parse_document(html)` and
/// `Html::select`, and reads attribute `attr` of each element found with `Element::attr`.
/// The contract only names the outcome: HTML parsing and selector matching are not
/// restated here.
#[verifier::external_body]
pub(crate) fn select_attribute(html: &str, selector: &str, attr: &str) -> (r: Option<Vec<Option<String>>>)
    ensures
        r.deep_view() == spec_select_attribute(html@, selector@, attr@),
{
    let selector = scraper::Selector::parse(selector).ok()?;
    let document = scraper::Html::parse_document(html);
    Some(document.select(&selector).map(|el| el.value().attr(attr).map(|v| v.to_string())).collect())
}

/// The values present among `attrs`, in order.
pub open spec fn present(attrs: Seq<Option<Seq<char>>>) -> Seq<Seq<char>>
    decreases attrs.len(),
{
    if attrs.len() == 0 {
        Seq::empty()
    } else {
        let rest = present(attrs.drop_last());
        match attrs.last() {
            Some(v) => rest.push(v),
            None => rest,
        }
    }
}

/// Each link resolved against the page `page` of the site at `base_url`.
pub open spec fn resolve_all(page: Seq<char>, base_url: Seq<char>, hrefs: Seq<Seq<char>>) -> Seq<
    Seq<char>,
> {
    hrefs.map_values(|h: Seq<char>| resolved(h, base_url, spec_url_join(page, h)))
}

/// The URLs of `urls` that `rule` accepts, in order.
pub open spec fn accepted(rule: UrlRule, urls: Seq<Seq<char>>) -> Seq<Seq<char>>
    decreases urls.len(),
{
    if urls.len() == 0 {
        Seq::empty()
    } else {
        let rest = accepted(rule, urls.drop_last());
        if rule.accepts(urls.last()) {
            rest.push(urls.last())
        } else {
            rest
        }
    }
}

/// The selector of links to further listing pages.
pub open spec fn next_page_selector() -> Seq<char> {
    "a[rel=\"next\"], a.pagination__next, a[href*=\"?page=\"]"@
}

/// Links to further listing pages are found three ways, any of them enough: an anchor
/// marked `rel="next"`, an anchor of class `pagination__next`, and any anchor whose `href`
/// holds a `?page=` query. The selector handed to `scraper` is the union of these three.
pub proof fn lemma_next_page_links_three_ways()
    ensures
        next_page_selector() == "a[rel=\"next\"]"@ + ", "@ + "a.pagination__next"@ + ", "@
            + "a[href*=\"?page=\"]"@,
{
    reveal_strlit("a[rel=\"next\"], a.pagination__next, a[href*=\"?page=\"]");
    reveal_strlit("a[rel=\"next\"]");
    reveal_strlit(", ");
    reveal_strlit("a.pagination__next");
    reveal_strlit("a[href*=\"?page=\"]");
    assert(next_page_selector() =~= "a[rel=\"next\"]"@ + ", "@ + "a.pagination__next"@ + ", "@
        + "a[href*=\"?page=\"]"@);
}

/// Resolves the links present among `attrs` against the page `page` of the site at
/// `base_url`, keeping those that `rule` accepts when it is given.
fn resolve_present(
    page: &str,
    base_url: &str,
    attrs: &Vec<Option<String>>,
    rule: Option<&UrlRule>,
) -> (r: Vec<String>)
    ensures
        views(r@) == match rule {
            Some(rl) => accepted(*rl, resolve_all(page@, base_url@, present(attrs.deep_view()))),
            None => resolve_all(page@, base_url@, present(attrs.deep_view())),
        },
{
    let mut out: Vec<String> = Vec::new();
    let ghost mut hrefs: Seq<Seq<char>> = Seq::empty();
    let n = attrs.len();
    assert(attrs.deep_view().take(0) =~= Seq::<Option<Seq<char>>>::empty());
    assert(views(out@) =~= Seq::<Seq<char>>::empty());
    for i in 0..n
        invariant
            n == attrs@.len(),
            attrs.deep_view().len() == n,
            hrefs == present(attrs.deep_view().take(i as int)),
            views(out@) == match rule {
                Some(rl) => accepted(*rl, resolve_all(page@, base_url@, hrefs)),
                None => resolve_all(page@, base_url@, hrefs),
            },
    {
        let ghost t = attrs.deep_view().take(i + 1);
        assert(t.drop_last() =~= attrs.deep_view().take(i as int));
        assert(t.last() == attrs@[i as int].deep_view());
        match &attrs[i] {
            None => {},
            Some(h) => {
                let u = resolve_url(page, h.as_str(), base_url);
                let ghost new_hrefs = hrefs.push(h@);
                assert(resolve_all(page@, base_url@, new_hrefs) =~= resolve_all(
                    page@,
                    base_url@,
                    hrefs,
                ).push(u@));
                let ghost all = resolve_all(page@, base_url@, new_hrefs);
                assert(all.drop_last() =~= resolve_all(page@, base_url@, hrefs));
                let keep = match rule {
                    Some(rl) => rl.test(u.as_str()),
                    None => true,
                };
                if keep {
                    let ghost before = views(out@);
                    out.push(u);
                    assert(views(out@) =~= before.push(all.last()));
                }
                proof {
                    hrefs = new_hrefs;
                }
            },
        }
    }
    assert(attrs.deep_view().take(n as int) =~= attrs.deep_view());
    out
}

/// The recipe links and the further listing pages on the page at `page_url` of `site`,
/// with `html` its content: links matching the site's recipe-link selector, resolved and
/// kept when the site's rule accepts them; links matching the next-page selector, resolved.
/// `None` when a selector does not parse.
pub fn extract_page_links(site: &SiteConfig, page_url: &str, html: &str) -> (r: Option<
    (Vec<String>, Vec<String>),
>)
    ensures
        match (
            spec_select_attribute(html@, site.recipe_link_selector@, "href"@),
            spec_select_attribute(html@, next_page_selector(), "href"@),
        ) {
            (Some(rl), Some(nl)) => r matches Some((recipes, next)) && views(recipes@) == accepted(
                site.recipe_url_test,
                resolve_all(page_url@, site.base_url@, present(rl)),
            ) && views(next@) == resolve_all(page_url@, site.base_url@, present(nl)),
            _ => r is None,
        },
{
    let recipe_attrs = select_attribute(html, site.recipe_link_selector.as_str(), "href");
    let next_attrs = select_attribute(
        html,
        "a[rel=\"next\"], a.pagination__next, a[href*=\"?page=\"]",
        "href",
    );
    match (recipe_attrs, next_attrs) {
        (Some(rl), Some(nl)) => {
            let recipes = resolve_present(
                page_url,
                site.base_url.as_str(),
                &rl,
                Some(&site.recipe_url_test),
            );
            let next = resolve_present(page_url, site.base_url.as_str(), &nl, None);
            Some((recipes, next))
        },
        _ => None,
    }
}

} // verus!
