//! Resolving links found on pages, and the host part of URLs.

use vstd::prelude::*;
use crate::text::{starts_with, strip_leading, strip_leading_seq, concat, seq_starts_with};

verus! {

/// What `url::Url::parse(base)` followed by `Url::join(href)` gives, serialized;
/// `None` when either step fails.
pub uninterp spec fn spec_url_join(base: Seq<char>, href: Seq<char>) -> Option<Seq<char>>;

/// What `url::Url::parse(url)` followed by `Url::host_str` gives: `None` when parsing
/// fails, `Some(None)` for a URL without a host.
pub uninterp spec fn spec_url_host(url: Seq<char>) -> Option<Option<Seq<char>>>;

/// Calls `url::Url::parse` on `base`, `Url::join` with `href`, and serializes the
/// result with `to_string`. The contract only names the outcome: the URL standard's
/// parsing and joining are not restated here.
#[verifier::external_body]
fn url_join(base: &str, href: &str) -> (r: Option<String>)
    ensures
        r.deep_view() == spec_url_join(base@, href@),
{
    match url::Url::parse(base) {
        Ok(parsed) => parsed.join(href).ok().map(|u| u.to_string()),
        Err(_) => None,
    }
}

/// Calls `url::Url::parse` on `url` and `Url::host_str` on the result. The contract
/// only names the outcome.
#[verifier::external_body]
fn url_host(url: &str) -> (r: Option<Option<String>>)
    ensures
        r.deep_view() == spec_url_host(url@),
{
    match url::Url::parse(url) {
        Ok(parsed) => Some(parsed.host_str().map(|h| h.to_string())),
        Err(_) => None,
    }
}

/// Where a link `href` leads, given what joining it onto the page URL gave (`joined`):
/// links that begin with `http` are taken as they are; otherwise the joined URL; and when
/// joining failed, the site's base URL followed by the link without its leading slashes.
pub open spec fn resolved(href: Seq<char>, base_url: Seq<char>, joined: Option<Seq<char>>) -> Seq<
    char,
> {
    if seq_starts_with(href, "http"@) {
        href
    } else {
        match joined {
            Some(u) => u,
            None => base_url + strip_leading_seq(href, '/'),
        }
    }
}

/// Resolves `href` from what joining it onto its page gave.
pub fn resolve_url_with(href: &str, base_url: &str, joined: Option<String>) -> (r: String)
    ensures
        r@ == resolved(href@, base_url@, joined.deep_view()),
{
    if starts_with(href, "http") {
        return href.to_owned();
    }
    match joined {
        Some(u) => u,
        None => {
            let rest = strip_leading(href, '/');
            concat(base_url, rest.as_str())
        },
    }
}

/// Resolves a link `href` found on the page at `base` of the site at `base_url`.
pub fn resolve_url(base: &str, href: &str, base_url: &str) -> (r: String)
    ensures
        r@ == resolved(href@, base_url@, spec_url_join(base@, href@)),
{
    if starts_with(href, "http") {
        return href.to_owned();
    }
    let joined = url_join(base, href);
    resolve_url_with(href, base_url, joined)
}

/// The host of `url` for per-domain bookkeeping: `None` when the URL does not parse,
/// the empty string when it has no host.
pub open spec fn domain_spec(host: Option<Option<Seq<char>>>) -> Option<Seq<char>> {
    match host {
        None => None,
        Some(None) => Some(Seq::empty()),
        Some(Some(h)) => Some(h),
    }
}

/// The host of `url`: `None` when the URL does not parse, empty when it has no host.
pub fn domain_of(url: &str) -> (r: Option<String>)
    ensures
        r.deep_view() == domain_spec(spec_url_host(url@)),
{
    match url_host(url) {
        None => None,
        Some(None) => Some(String::new()),
        Some(Some(h)) => Some(h),
    }
}

/// The `Referer` sent with a page request: `https://` followed by the page's host and `/`;
/// `None` when the URL does not parse.
pub open spec fn referer_spec(host: Option<Option<Seq<char>>>) -> Option<Seq<char>> {
    match domain_spec(host) {
        None => None,
        Some(d) => Some("https://"@ + d + "/"@),
    }
}

/// The `Referer` sent with a request for `url`.
pub fn referer_for(url: &str) -> (r: Option<String>)
    ensures
        r.deep_view() == referer_spec(spec_url_host(url@)),
{
    match domain_of(url) {
        None => None,
        Some(d) => {
            let a = concat("https://", d.as_str());
            Some(concat(a.as_str(), "/"))
        },
    }
}

} // verus!
