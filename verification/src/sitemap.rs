//! Scanning sitemaps and sitemap indexes for page URLs.

use vstd::prelude::*;
use quick_xml::events::Event;
use quick_xml::Reader;
use crate::sites::UrlRule;
use crate::text::views;

verus! {

/// `n[i]` is the first `}` of `n`.
pub open spec fn first_close_brace(n: Seq<u8>, i: int) -> bool {
    0 <= i < n.len() && n[i] == 125u8 && forall|j: int| 0 <= j < i ==> n[j] != 125u8
}

/// An XML name without a `{namespace}` prefix: what follows the first `}`, or the whole
/// name when it has none.
pub open spec fn local_name_spec(n: Seq<u8>) -> Seq<u8> {
    if exists|i: int| first_close_brace(n, i) {
        n.skip((choose|i: int| first_close_brace(n, i)) + 1)
    } else {
        n
    }
}

/// The local part of an XML name: what follows the first `}`, or all of it.
pub fn local_name(name: &[u8]) -> (r: &[u8])
    ensures
        r@ == local_name_spec(name@),
{
    let n = name.len();
    let mut i: usize = 0;
    while i < n
        invariant
            n == name@.len(),
            i <= n,
            forall|j: int| 0 <= j < i ==> name@[j] != 125u8,
        decreases n - i,
    {
        if name[i] == 125u8 {
            assert(first_close_brace(name@, i as int));
            assert forall|k: int| #[trigger] first_close_brace(name@, k) implies k == i by {
                if k < i {
                } else if k > i {
                    assert(name@[i as int] == 125u8);
                }
            }
            let r = &name[i + 1..n];
            assert(r@ =~= name@.skip(i + 1));
            return r;
        }
        i = i + 1;
    }
    assert(!exists|k: int| first_close_brace(name@, k));
    let r = &name[0..n];
    assert(r@ =~= name@);
    r
}


/// One event of an XML document, as the scan needs it.
pub enum XmlEvent {
    /// An opening tag, with its raw name.
    Start(Vec<u8>),
    /// A closing tag, with its raw name.
    End(Vec<u8>),
    /// Character data, unescaped; `None` when it holds an escape that does not resolve.
    Text(Option<String>),
    /// The end of the document.
    Eof,
    /// Malformed input.
    Error,
    /// Anything else: empty elements, comments, declarations, CDATA.
    Other,
}

/// An XML event as plain values: tag names as bytes, text as characters.
pub enum XmlEventView {
    /// An opening tag, with its raw name.
    Start(Seq<u8>),
    /// A closing tag, with its raw name.
    End(Seq<u8>),
    /// Character data, unescaped; `None` when an escape does not resolve.
    Text(Option<Seq<char>>),
    /// The end of the document.
    Eof,
    /// Malformed input.
    Error,
    /// Anything else.
    Other,
}

impl DeepView for XmlEvent {
    type V = XmlEventView;

    open spec fn deep_view(&self) -> XmlEventView {
        match self {
            XmlEvent::Start(n) => XmlEventView::Start(n@),
            XmlEvent::End(n) => XmlEventView::End(n@),
            XmlEvent::Text(t) => XmlEventView::Text(t.deep_view()),
            XmlEvent::Eof => XmlEventView::Eof,
            XmlEvent::Error => XmlEventView::Error,
            XmlEvent::Other => XmlEventView::Other,
        }
    }
}

/// Why a sitemap could not be read.
#[derive(Debug)]
pub enum SitemapError {
    /// The text of a `<loc>` element holds an escape that does not resolve.
    BadEscape,
}

/// Whether the scan goes on after an event.
pub enum ScanStatus {
    /// More events are wanted.
    Running,
    /// The document ended, or could not be read further; what was gathered stands.
    Finished,
    /// The document is refused.
    Failed,
}

/// The scan's state: inside `<sitemap>`, inside `<loc>`, the current page URL, the
/// sitemap URLs found, the recipe URLs found.
pub type ScanView = (bool, bool, Seq<char>, Seq<Seq<char>>, Seq<Seq<char>>);

/// The bytes of `sitemap`.
pub open spec fn tag_sitemap() -> Seq<u8> {
    seq![115u8, 105u8, 116u8, 101u8, 109u8, 97u8, 112u8]
}

/// The bytes of `url`.
pub open spec fn tag_url() -> Seq<u8> {
    seq![117u8, 114u8, 108u8]
}

/// The bytes of `loc`.
pub open spec fn tag_loc() -> Seq<u8> {
    seq![108u8, 111u8, 99u8]
}

/// One step of the scan. A `<loc>` inside `<sitemap>` names a further sitemap; any other
/// `<loc>` is the current page, which the closing `</url>` keeps when `rule` accepts it.
pub open spec fn scan_step(st: ScanView, ev: XmlEventView, rule: UrlRule) -> (ScanStatus, ScanView) {
    let (in_sitemap, in_loc, current, sitemaps, recipes) = st;
    match ev {
        XmlEventView::Start(n) => {
            let ln = local_name_spec(n);
            if ln == tag_sitemap() {
                (ScanStatus::Running, (true, in_loc, current, sitemaps, recipes))
            } else if ln == tag_loc() {
                (ScanStatus::Running, (in_sitemap, true, current, sitemaps, recipes))
            } else {
                (ScanStatus::Running, st)
            }
        },
        XmlEventView::End(n) => {
            let ln = local_name_spec(n);
            if ln == tag_sitemap() {
                (ScanStatus::Running, (false, in_loc, Seq::empty(), sitemaps, recipes))
            } else if ln == tag_url() {
                if current.len() > 0 {
                    let kept = if rule.accepts(current) {
                        recipes.push(current)
                    } else {
                        recipes
                    };
                    (ScanStatus::Running, (in_sitemap, in_loc, Seq::empty(), sitemaps, kept))
                } else {
                    (ScanStatus::Running, st)
                }
            } else if ln == tag_loc() {
                (ScanStatus::Running, (in_sitemap, false, current, sitemaps, recipes))
            } else {
                (ScanStatus::Running, st)
            }
        },
        XmlEventView::Text(t) => {
            if in_loc {
                match t {
                    None => (ScanStatus::Failed, st),
                    Some(x) => if in_sitemap {
                        (ScanStatus::Running, (in_sitemap, in_loc, current, sitemaps.push(x), recipes))
                    } else {
                        (ScanStatus::Running, (in_sitemap, in_loc, x, sitemaps, recipes))
                    },
                }
            } else {
                (ScanStatus::Running, st)
            }
        },
        XmlEventView::Eof => (ScanStatus::Finished, st),
        XmlEventView::Error => (ScanStatus::Finished, st),
        XmlEventView::Other => (ScanStatus::Running, st),
    }
}

/// The scan of a whole event sequence from state `st`: `None` when the document is refused;
/// running out of events ends the scan as the end of the document does.
pub open spec fn scan_events(st: ScanView, evs: Seq<XmlEventView>, rule: UrlRule) -> Option<ScanView>
    decreases evs.len(),
{
    if evs.len() == 0 {
        Some(st)
    } else {
        let (status, next) = scan_step(st, evs[0], rule);
        match status {
            ScanStatus::Failed => None,
            ScanStatus::Finished => Some(next),
            ScanStatus::Running => scan_events(next, evs.drop_first(), rule),
        }
    }
}

/// The state before any event.
pub open spec fn scan_start() -> ScanView {
    (false, false, Seq::empty(), Seq::empty(), Seq::empty())
}

/// Every recipe URL gathered is accepted by `rule`.
pub open spec fn all_accepted(urls: Seq<Seq<char>>, rule: UrlRule) -> bool {
    forall|i: int| 0 <= i < urls.len() ==> rule.accepts(#[trigger] urls[i])
}

proof fn lemma_step_keeps_accepted(st: ScanView, ev: XmlEventView, rule: UrlRule)
    requires
        all_accepted(st.4, rule),
    ensures
        all_accepted(scan_step(st, ev, rule).1.4, rule),
{
    let next = scan_step(st, ev, rule).1;
    assert forall|i: int| 0 <= i < next.4.len() implies rule.accepts(#[trigger] next.4[i]) by {
        if i < st.4.len() {
            assert(st.4.len() <= next.4.len());
        }
    }
}

/// The state of a sitemap scan.
pub struct SitemapScan {
    /// Inside a `<sitemap>` element.
    pub in_sitemap: bool,
    /// Inside a `<loc>` element.
    pub in_loc: bool,
    /// The last page URL read in a `<url>` element, until the element closes.
    pub current_loc: String,
    /// The further sitemaps named so far.
    pub sitemap_urls: Vec<String>,
    /// The recipe pages found so far.
    pub recipe_urls: Vec<String>,
}

impl View for SitemapScan {
    type V = ScanView;

    open spec fn view(&self) -> ScanView {
        (
            self.in_sitemap,
            self.in_loc,
            self.current_loc@,
            views(self.sitemap_urls@),
            views(self.recipe_urls@),
        )
    }
}

fn bytes_eq(a: &[u8], b: &[u8]) -> (r: bool)
    ensures
        r == (a@ == b@),
{
    if a.len() != b.len() {
        return false;
    }
    let n = a.len();
    for i in 0..n
        invariant
            n == a@.len(),
            n == b@.len(),
            forall|k: int| 0 <= k < i ==> a@[k] == b@[k],
    {
        if a[i] != b[i] {
            return false;
        }
    }
    assert(a@ =~= b@);
    true
}

fn is_sitemap_tag(n: &[u8]) -> (r: bool)
    ensures
        r == (n@ == tag_sitemap()),
{
    let t: [u8; 7] = [115u8, 105u8, 116u8, 101u8, 109u8, 97u8, 112u8];
    let r = bytes_eq(n, &t);
    assert(t@ =~= tag_sitemap());
    r
}

fn is_url_tag(n: &[u8]) -> (r: bool)
    ensures
        r == (n@ == tag_url()),
{
    let t: [u8; 3] = [117u8, 114u8, 108u8];
    let r = bytes_eq(n, &t);
    assert(t@ =~= tag_url());
    r
}

fn is_loc_tag(n: &[u8]) -> (r: bool)
    ensures
        r == (n@ == tag_loc()),
{
    let t: [u8; 3] = [108u8, 111u8, 99u8];
    let r = bytes_eq(n, &t);
    assert(t@ =~= tag_loc());
    r
}

impl SitemapScan {
    /// A scan that has seen nothing.
    pub fn new() -> (r: SitemapScan)
        ensures
            r@ == scan_start(),
    {
        let r = SitemapScan {
            in_sitemap: false,
            in_loc: false,
            current_loc: String::new(),
            sitemap_urls: Vec::new(),
            recipe_urls: Vec::new(),
        };
        assert(r@ =~= scan_start());
        r
    }

    /// Takes in one event.
    pub fn feed(&mut self, ev: &XmlEvent, rule: &UrlRule) -> (s: ScanStatus)
        ensures
            (s, final(self)@) == scan_step(old(self)@, ev.deep_view(), *rule),
    {
        match ev {
            XmlEvent::Start(name) => {
                let ln = local_name(name.as_slice());
                if is_sitemap_tag(ln) {
                    self.in_sitemap = true;
                } else if is_loc_tag(ln) {
                    self.in_loc = true;
                }
                ScanStatus::Running
            },
            XmlEvent::End(name) => {
                let ln = local_name(name.as_slice());
                if is_sitemap_tag(ln) {
                    self.in_sitemap = false;
                    self.current_loc = String::new();
                } else if is_url_tag(ln) {
                    if !self.current_loc.as_str().is_empty() {
                        if rule.test(self.current_loc.as_str()) {
                            let ghost old_urls = self.recipe_urls@;
                            self.recipe_urls.push(self.current_loc.clone());
                            assert(views(self.recipe_urls@) =~= views(old_urls).push(
                                old(self).current_loc@,
                            ));
                        }
                        self.current_loc = String::new();
                    }
                } else if is_loc_tag(ln) {
                    self.in_loc = false;
                }
                ScanStatus::Running
            },
            XmlEvent::Text(t) => {
                if self.in_loc {
                    match t {
                        None => {
                            return ScanStatus::Failed;
                        },
                        Some(x) => {
                            if self.in_sitemap {
                                let ghost old_urls = self.sitemap_urls@;
                                self.sitemap_urls.push(x.clone());
                                assert(views(self.sitemap_urls@) =~= views(old_urls).push(x@));
                            } else {
                                self.current_loc = x.clone();
                            }
                        },
                    }
                }
                ScanStatus::Running
            },
            XmlEvent::Eof => ScanStatus::Finished,
            XmlEvent::Error => ScanStatus::Finished,
            XmlEvent::Other => ScanStatus::Running,
        }
    }
}


/// What the scan of `evs` yields: the sitemap URLs and the recipe URLs, or the refusal.
pub open spec fn sitemap_result(evs: Seq<XmlEventView>, rule: UrlRule) -> Option<
    (Seq<Seq<char>>, Seq<Seq<char>>),
> {
    match scan_events(scan_start(), evs, rule) {
        None => None,
        Some(st) => Some((st.3, st.4)),
    }
}

/// Whether the element `tag` is open after `evs`: the last opening or closing tag of that
/// name among them opens it. Names are compared without their namespace.
pub open spec fn tag_open(evs: Seq<XmlEventView>, tag: Seq<u8>) -> bool
    decreases evs.len(),
{
    if evs.len() == 0 {
        false
    } else {
        match evs.last() {
            XmlEventView::Start(n) => if local_name_spec(n) == tag {
                true
            } else {
                tag_open(evs.drop_last(), tag)
            },
            XmlEventView::End(n) => if local_name_spec(n) == tag {
                false
            } else {
                tag_open(evs.drop_last(), tag)
            },
            _ => tag_open(evs.drop_last(), tag),
        }
    }
}

/// The texts of `<loc>` elements inside `<sitemap>` elements among `evs`, in document order.
pub open spec fn sitemap_locs(evs: Seq<XmlEventView>) -> Seq<Seq<char>>
    decreases evs.len(),
{
    if evs.len() == 0 {
        Seq::empty()
    } else {
        let rest = sitemap_locs(evs.drop_last());
        match evs.last() {
            XmlEventView::Text(Some(x)) => if tag_open(evs.drop_last(), tag_loc()) && tag_open(
                evs.drop_last(),
                tag_sitemap(),
            ) {
                rest.push(x)
            } else {
                rest
            },
            _ => rest,
        }
    }
}

/// The page URL read so far for the current `<url>`: the last `<loc>` text outside any
/// `<sitemap>` since the last `</url>` or `</sitemap>`; empty when there is none.
pub open spec fn pending_loc(evs: Seq<XmlEventView>) -> Seq<char>
    decreases evs.len(),
{
    if evs.len() == 0 {
        Seq::empty()
    } else {
        match evs.last() {
            XmlEventView::End(n) => if local_name_spec(n) == tag_sitemap() || local_name_spec(n)
                == tag_url() {
                Seq::empty()
            } else {
                pending_loc(evs.drop_last())
            },
            XmlEventView::Text(Some(x)) => if tag_open(evs.drop_last(), tag_loc()) && !tag_open(
                evs.drop_last(),
                tag_sitemap(),
            ) {
                x
            } else {
                pending_loc(evs.drop_last())
            },
            _ => pending_loc(evs.drop_last()),
        }
    }
}

/// The page URLs among `evs` that `rule` accepts, in document order: at each `</url>`, the
/// `<loc>` text read for it, when there is one.
pub open spec fn url_locs(evs: Seq<XmlEventView>, rule: UrlRule) -> Seq<Seq<char>>
    decreases evs.len(),
{
    if evs.len() == 0 {
        Seq::empty()
    } else {
        let rest = url_locs(evs.drop_last(), rule);
        let pending = pending_loc(evs.drop_last());
        match evs.last() {
            XmlEventView::End(n) => if local_name_spec(n) != tag_sitemap() && local_name_spec(n)
                == tag_url() && pending.len() > 0 && rule.accepts(pending) {
                rest.push(pending)
            } else {
                rest
            },
            _ => rest,
        }
    }
}

/// Whether reading stops at `ev` after `before`: at the end of the document, at a read
/// error, or at a `<loc>` text whose escape does not resolve.
pub open spec fn stops_at(before: Seq<XmlEventView>, ev: XmlEventView) -> bool {
    match ev {
        XmlEventView::Eof => true,
        XmlEventView::Error => true,
        XmlEventView::Text(None) => tag_open(before, tag_loc()),
        _ => false,
    }
}

/// The position of the first event of `evs` at which reading stops; the length of `evs`
/// when there is none.
pub open spec fn first_stop(evs: Seq<XmlEventView>) -> nat
    decreases evs.len(),
{
    if evs.len() == 0 {
        0
    } else if first_stop(evs.drop_last()) < evs.len() - 1 {
        first_stop(evs.drop_last())
    } else if stops_at(evs.drop_last(), evs.last()) {
        (evs.len() - 1) as nat
    } else {
        evs.len()
    }
}

/// What a sitemap says, read off its structure: reading goes up to the first stop; a
/// `<loc>` text with an escape that does not resolve refuses the document; otherwise the
/// `<loc>` texts inside `<sitemap>` elements, and the accepted `<loc>` text of each
/// `<url>`, in document order, up to the stop.
pub open spec fn sitemap_by_structure(evs: Seq<XmlEventView>, rule: UrlRule) -> Option<
    (Seq<Seq<char>>, Seq<Seq<char>>),
> {
    let k = first_stop(evs);
    let read = evs.take(k as int);
    if k < evs.len() && evs[k as int] is Text {
        None
    } else {
        Some((sitemap_locs(read), url_locs(read, rule)))
    }
}

/// The scan's state after `evs`, read off their structure.
pub open spec fn structural_state(evs: Seq<XmlEventView>, rule: UrlRule) -> ScanView {
    (
        tag_open(evs, tag_sitemap()),
        tag_open(evs, tag_loc()),
        pending_loc(evs),
        sitemap_locs(evs),
        url_locs(evs, rule),
    )
}

proof fn lemma_structural_step(p: Seq<XmlEventView>, e: XmlEventView, rule: UrlRule)
    ensures
        !stops_at(p, e) ==> scan_step(structural_state(p, rule), e, rule) == (
            ScanStatus::Running,
            structural_state(p.push(e), rule),
        ),
        stops_at(p, e) && e is Text ==> scan_step(structural_state(p, rule), e, rule).0
            is Failed,
        stops_at(p, e) && !(e is Text) ==> scan_step(structural_state(p, rule), e, rule) == (
            ScanStatus::Finished,
            structural_state(p, rule),
        ),
{
    let q = p.push(e);
    assert(q.drop_last() =~= p);
    assert(q.last() == e);
    assert(tag_sitemap() != tag_loc() && tag_sitemap() != tag_url() && tag_url() != tag_loc())
        by {
        assert(tag_sitemap().len() != tag_loc().len());
        assert(tag_sitemap().len() != tag_url().len());
        assert(tag_url()[0] != tag_loc()[0]);
    }
}

proof fn lemma_first_stop(evs: Seq<XmlEventView>)
    ensures
        first_stop(evs) <= evs.len(),
        forall|n: int| 0 <= n < first_stop(evs) ==> !stops_at(evs.take(n), #[trigger] evs[n]),
        first_stop(evs) < evs.len() ==> stops_at(
            evs.take(first_stop(evs) as int),
            evs[first_stop(evs) as int],
        ),
    decreases evs.len(),
{
    if evs.len() > 0 {
        let d = evs.drop_last();
        lemma_first_stop(d);
        assert forall|n: int| 0 <= n <= d.len() implies #[trigger] evs.take(n) == d.take(n) by {
            assert(evs.take(n) =~= d.take(n));
        }
        assert forall|n: int| 0 <= n < d.len() implies #[trigger] evs[n] == d[n] by {}
        assert(evs.take(d.len() as int) =~= d);
        if first_stop(d) < d.len() {
            assert(evs.take(first_stop(d) as int) == d.take(first_stop(d) as int));
        } else {
            assert forall|n: int| 0 <= n < first_stop(evs) implies !stops_at(evs.take(n), #[trigger] evs[n]) by {
                if n < d.len() {
                    assert(evs.take(n) == d.take(n));
                    assert(!stops_at(d.take(n), d[n]));
                } else {
                    assert(n == d.len());
                    assert(evs[n] == evs.last());
                }
            }
        }
    }
}

proof fn lemma_structural_prefix(evs: Seq<XmlEventView>, rule: UrlRule, n: int)
    requires
        0 <= n <= first_stop(evs),
        first_stop(evs) <= evs.len(),
        forall|m: int| 0 <= m < first_stop(evs) ==> !stops_at(evs.take(m), #[trigger] evs[m]),
    ensures
        scan_events(scan_start(), evs, rule) == scan_events(
            structural_state(evs.take(n), rule),
            evs.skip(n),
            rule,
        ),
    decreases n,
{
    if n == 0 {
        assert(evs.take(0) =~= Seq::<XmlEventView>::empty());
        assert(evs.skip(0) =~= evs);
        assert(structural_state(Seq::<XmlEventView>::empty(), rule) == scan_start());
    } else {
        lemma_structural_prefix(evs, rule, n - 1);
        let p = evs.take(n - 1);
        let e = evs[n - 1];
        assert(!stops_at(p, e));
        lemma_structural_step(p, e, rule);
        assert(p.push(e) =~= evs.take(n));
        assert(evs.skip(n - 1)[0] == e);
        assert(evs.skip(n - 1).drop_first() =~= evs.skip(n));
    }
}

/// The sitemap scan reads a document by its structure: the further sitemaps are the
/// `<loc>` texts inside `<sitemap>` elements and the recipe pages the accepted `<loc>`
/// text of each `<url>`, both in document order, up to the end of the document or the
/// first read error; a `<loc>` text whose escape does not resolve refuses the document.
pub proof fn lemma_sitemap_structure(evs: Seq<XmlEventView>, rule: UrlRule)
    ensures
        sitemap_result(evs, rule) == sitemap_by_structure(evs, rule),
{
    lemma_first_stop(evs);
    let k = first_stop(evs);
    lemma_structural_prefix(evs, rule, k as int);
    let read = evs.take(k as int);
    if k < evs.len() {
        let e = evs[k as int];
        lemma_structural_step(read, e, rule);
        assert(evs.skip(k as int)[0] == e);
    } else {
        assert(evs.skip(k as int) =~= Seq::<XmlEventView>::empty());
    }
}

/// The result of a finished scan as the two URL lists.
pub open spec fn result_view(r: Result<(Vec<String>, Vec<String>), SitemapError>) -> Option<
    (Seq<Seq<char>>, Seq<Seq<char>>),
> {
    match r {
        Ok((a, b)) => Some((views(a@), views(b@))),
        Err(_) => None,
    }
}

/// Scans a sequence of XML events for further sitemaps and for pages that `recipe_test`
/// accepts.
pub fn sitemap_from_events(events: &Vec<XmlEvent>, recipe_test: &UrlRule) -> (r: Result<
    (Vec<String>, Vec<String>),
    SitemapError,
>)
    ensures
        result_view(r) == sitemap_result(events.deep_view(), *recipe_test),
{
    let mut scan = SitemapScan::new();
    let n = events.len();
    let mut i: usize = 0;
    let ghost evs = events.deep_view();
    assert(evs.skip(0) =~= evs);
    while i < n
        invariant
            n == events@.len(),
            evs == events.deep_view(),
            i <= n,
            scan_events(scan_start(), evs, *recipe_test) == scan_events(
                scan@,
                evs.skip(i as int),
                *recipe_test,
            ),
        decreases n - i,
    {
        assert(evs.skip(i as int)[0] == events@[i as int].deep_view());
        assert(evs.skip(i as int).drop_first() =~= evs.skip(i + 1));
        match scan.feed(&events[i], recipe_test) {
            ScanStatus::Running => {},
            ScanStatus::Finished => {
                return Ok((scan.sitemap_urls, scan.recipe_urls));
            },
            ScanStatus::Failed => {
                return Err(SitemapError::BadEscape);
            },
        }
        i = i + 1;
    }
    Ok((scan.sitemap_urls, scan.recipe_urls))
}

/// The events that `quick_xml::Reader::from_str(body)`, with surrounding whitespace of
/// text trimmed (`Config::trim_text(true)`), yields from successive `read_event` calls, up
/// to and including the first end of the document or read error; tag names as raw bytes,
/// text through `BytesText::unescape`.
pub uninterp spec fn spec_xml_events(body: Seq<char>) -> Seq<XmlEventView>;

/// Reads `body` with quick-xml as [`spec_xml_events`] describes: a reader from
/// `Reader::from_str` with `trim_text(true)`, `read_event` until `Eof` or an error, each
/// event converted. The contract names the sequence; XML tokenizing is not restated.
#[verifier::external_body]
fn xml_events(body: &str) -> (r: Vec<XmlEvent>)
    ensures
        r.deep_view() == spec_xml_events(body@),
{
    let mut reader = Reader::from_str(body);
    reader.config_mut().trim_text(true);
    let mut events = Vec::new();
    let last = loop {
        match reader.read_event() {
            Ok(Event::Start(t)) => events.push(XmlEvent::Start(t.name().0.to_vec())),
            Ok(Event::End(t)) => events.push(XmlEvent::End(t.name().0.to_vec())),
            Ok(Event::Text(t)) => events.push(XmlEvent::Text(t.unescape().ok().map(String::from))),
            Ok(Event::Eof) => break XmlEvent::Eof,
            Ok(_) => events.push(XmlEvent::Other),
            Err(_) => break XmlEvent::Error,
        }
    };
    events.push(last);
    events
}

proof fn lemma_scan_keeps_accepted(st: ScanView, evs: Seq<XmlEventView>, rule: UrlRule)
    requires
        all_accepted(st.4, rule),
    ensures
        scan_events(st, evs, rule) matches Some(end) ==> all_accepted(end.4, rule),
    decreases evs.len(),
{
    if evs.len() > 0 {
        lemma_step_keeps_accepted(st, evs[0], rule);
        let next = scan_step(st, evs[0], rule).1;
        lemma_scan_keeps_accepted(next, evs.drop_first(), rule);
    }
}

/// Reads a sitemap or sitemap index: the URLs of further sitemaps (the `<loc>` texts inside
/// `<sitemap>` elements), and the page URLs that `recipe_test` accepts (the `<loc>` text of
/// each `<url>`), in document order, as the scan of the events quick-xml reads from `body`
/// gives them. A read error ends the scan with what was found; a `<loc>` text whose escape
/// does not resolve refuses the document.
pub fn parse_sitemap(body: &str, recipe_test: &UrlRule) -> (r: Result<
    (Vec<String>, Vec<String>),
    SitemapError,
>)
    ensures
        result_view(r) == sitemap_result(spec_xml_events(body@), *recipe_test),
        result_view(r) == sitemap_by_structure(spec_xml_events(body@), *recipe_test),
        r matches Ok((_, recipes)) ==> all_accepted(views(recipes@), *recipe_test),
{
    let events = xml_events(body);
    proof {
        lemma_scan_keeps_accepted(scan_start(), events.deep_view(), *recipe_test);
        lemma_sitemap_structure(events.deep_view(), *recipe_test);
    }
    sitemap_from_events(&events, recipe_test)
}

} // verus!
