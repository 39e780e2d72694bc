//! Crawl bookkeeping: which pages and sitemaps are still to visit, which were visited,
//! and which recipe URLs were already reported.

use vstd::prelude::*;
use crate::recipe::flatten;
use crate::sitemap::all_accepted;
use crate::sites::UrlRule;
use crate::text::{str_eq, views};

verus! {

/// A set of strings, held as a list.
///
/// A list stands in for `HashSet<String>`: vstd specifies `HashSet` membership and
/// insertion only for element types that obey its key model, which it grants to integers
/// and `bool` but not to `String`, so with `String` elements no contract here could be
/// proved over a `HashSet`.
pub struct StringSet {
    items: Vec<String>,
}

impl View for StringSet {
    type V = Set<Seq<char>>;

    closed spec fn view(&self) -> Set<Seq<char>> {
        Set::new(|s: Seq<char>| exists|i: int| 0 <= i < self.items@.len() && #[trigger] self.items@[i]@ == s)
    }
}

impl StringSet {
    /// The empty set.
    pub fn new() -> (r: StringSet)
        ensures
            r@ == Set::<Seq<char>>::empty(),
    {
        let r = StringSet { items: Vec::new() };
        assert(r@ =~= Set::<Seq<char>>::empty());
        r
    }

    /// Whether `s` is in the set.
    pub fn contains(&self, s: &str) -> (r: bool)
        ensures
            r == self@.contains(s@),
    {
        let n = self.items.len();
        for i in 0..n
            invariant
                n == self.items@.len(),
                forall|k: int| 0 <= k < i ==> #[trigger] self.items@[k]@ != s@,
        {
            if str_eq(self.items[i].as_str(), s) {
                return true;
            }
        }
        false
    }

    /// Adds `s`; whether it was new, as `HashSet::insert` answers.
    pub fn insert(&mut self, s: String) -> (r: bool)
        ensures
            r == !old(self)@.contains(s@),
            final(self)@ == old(self)@.insert(s@),
    {
        if self.contains(s.as_str()) {
            assert(self@.insert(s@) =~= self@);
            return false;
        }
        let ghost before = self@;
        let ghost v = s@;
        let ghost old_items = self.items@;
        self.items.push(s);
        assert forall|x: Seq<char>| #[trigger] self@.contains(x) == before.insert(v).contains(x) by {
            if before.contains(x) {
                let k = choose|k: int| 0 <= k < old_items.len() && #[trigger] old_items[k]@ == x;
                assert(self.items@[k]@ == x);
            }
            if x == v {
                assert(self.items@[old_items.len() as int]@ == x);
            }
        }
        assert(self@ =~= before.insert(v));
        true
    }
}

/// The items of `items` that are neither in `seen` nor earlier in `items`, in order.
pub open spec fn fresh_items(items: Seq<Seq<char>>, seen: Set<Seq<char>>) -> Seq<Seq<char>>
    decreases items.len(),
{
    if items.len() == 0 {
        Seq::empty()
    } else {
        let rest = fresh_items(items.drop_last(), seen);
        let x = items.last();
        if seen.contains(x) || items.drop_last().contains(x) {
            rest
        } else {
            rest.push(x)
        }
    }
}

/// No item appears twice.
pub open spec fn distinct(items: Seq<Seq<char>>) -> bool {
    forall|i: int, j: int| 0 <= i < items.len() && 0 <= j < items.len() && i != j ==> items[i] != items[j]
}

proof fn lemma_fresh_items(items: Seq<Seq<char>>, seen: Set<Seq<char>>)
    ensures
        distinct(fresh_items(items, seen)),
        forall|x: Seq<char>| #[trigger] fresh_items(items, seen).contains(x) <==> (items.contains(x) && !seen.contains(x)),
    decreases items.len(),
{
    if items.len() > 0 {
        let init = items.drop_last();
        lemma_fresh_items(init, seen);
        let x = items.last();
        assert forall|y: Seq<char>| items.contains(y) <==> (init.contains(y) || y == x) by {
            if items.contains(y) {
                let k = choose|k: int| 0 <= k < items.len() && items[k] == y;
                if k < init.len() {
                    assert(init[k] == y);
                }
            }
            if init.contains(y) {
                let k = choose|k: int| 0 <= k < init.len() && init[k] == y;
                assert(items[k] == y);
            }
            if y == x {
                assert(items[items.len() - 1] == y);
            }
        }
        let rest = fresh_items(init, seen);
        if !(seen.contains(x) || init.contains(x)) {
            assert forall|y: Seq<char>| rest.push(x).contains(y) <==> (rest.contains(y) || y == x) by {
                if rest.push(x).contains(y) {
                    let k = choose|k: int| 0 <= k < rest.push(x).len() && rest.push(x)[k] == y;
                    if k < rest.len() {
                        assert(rest[k] == y);
                    }
                }
                if rest.contains(y) {
                    let k = choose|k: int| 0 <= k < rest.len() && rest[k] == y;
                    assert(rest.push(x)[k] == y);
                }
                if y == x {
                    assert(rest.push(x)[rest.len() as int] == y);
                }
            }
            assert forall|i: int, j: int|
                0 <= i < rest.push(x).len() && 0 <= j < rest.push(x).len() && i != j implies rest.push(x)[i]
                != rest.push(x)[j] by {
                if i == rest.len() {
                    assert(!rest.contains(x));
                    assert(rest.push(x)[j] == rest[j]);
                } else if j == rest.len() {
                    assert(!rest.contains(x));
                    assert(rest.push(x)[i] == rest[i]);
                }
            }
        }
        assert forall|y: Seq<char>| #[trigger] fresh_items(items, seen).contains(y) <==> (
        items.contains(y) && !seen.contains(y)) by {
            assert(rest.contains(y) <==> (init.contains(y) && !seen.contains(y)));
        }
    }
}

/// Among a crawl's recipe URLs, those not reported before, in order and without
/// repetition; `seen` becomes the set of all URLs met.
pub fn report_fresh(seen: &mut StringSet, found: Vec<String>) -> (r: Vec<String>)
    ensures
        views(r@) == fresh_items(views(found@), old(seen)@),
        final(seen)@ == old(seen)@.union(views(found@).to_set()),
{
    let mut out: Vec<String> = Vec::new();
    let n = found.len();
    let ghost seen0 = seen@;
    assert(views(found@).take(0) =~= Seq::<Seq<char>>::empty());
    assert(views(out@) =~= Seq::<Seq<char>>::empty());
    assert(seen@ =~= seen0.union(views(found@).take(0).to_set()));
    for i in 0..n
        invariant
            n == found@.len(),
            views(out@) == fresh_items(views(found@).take(i as int), seen0),
            seen@ == seen0.union(views(found@).take(i as int).to_set()),
    {
        let ghost t = views(found@).take(i + 1);
        let ghost prev = views(found@).take(i as int);
        assert(t.drop_last() =~= prev);
        assert(t.last() == found@[i as int]@);
        let u = found[i].clone();
        let ghost uv = u@;
        assert(seen@.contains(uv) == (seen0.contains(uv) || prev.contains(uv))) by {
            assert(prev.to_set().contains(uv) == prev.contains(uv));
        }
        if seen.insert(u) {
            let ghost before = out@;
            out.push(found[i].clone());
            assert(views(out@) =~= views(before).push(uv));
        }
        assert(seen@ =~= seen0.union(t.to_set())) by {
            assert forall|x: Seq<char>| t.to_set().contains(x) == (prev.to_set().contains(x) || x == uv) by {
                if t.contains(x) {
                    let k = choose|k: int| 0 <= k < t.len() && t[k] == x;
                    if k < prev.len() {
                        assert(prev[k] == x);
                    }
                }
                if prev.contains(x) {
                    let k = choose|k: int| 0 <= k < prev.len() && prev[k] == x;
                    assert(t[k] == x);
                }
                if x == uv {
                    assert(t[i as int] == x);
                }
            }
        }
    }
    assert(views(found@).take(n as int) =~= views(found@));
    out
}


proof fn lemma_distinct_push(s: Seq<Seq<char>>, x: Seq<char>)
    requires
        distinct(s),
        !s.contains(x),
    ensures
        distinct(s.push(x)),
{
    assert forall|i: int, j: int|
        0 <= i < s.push(x).len() && 0 <= j < s.push(x).len() && i != j implies s.push(x)[i]
        != s.push(x)[j] by {
        if i == s.len() {
            assert(s.contains(s[j]));
        } else if j == s.len() {
            assert(s.contains(s[i]));
        }
    }
}

proof fn lemma_push_to_set(s: Seq<Seq<char>>, x: Seq<char>)
    ensures
        s.push(x).to_set() == s.to_set().insert(x),
{
    assert forall|y: Seq<char>| #[trigger] s.push(x).to_set().contains(y) == s.to_set().insert(x).contains(y) by {
        if s.push(x).contains(y) {
            let k = choose|k: int| 0 <= k < s.push(x).len() && s.push(x)[k] == y;
            if k < s.len() {
                assert(s[k] == y);
            }
        }
        if s.contains(y) {
            let k = choose|k: int| 0 <= k < s.len() && s[k] == y;
            assert(s.push(x)[k] == y);
        }
        if y == x {
            assert(s.push(x)[s.len() as int] == y);
        }
    }
    assert(s.push(x).to_set() =~= s.to_set().insert(x));
}

proof fn lemma_distinct_concat(a: Seq<Seq<char>>, b: Seq<Seq<char>>)
    requires
        distinct(a),
        distinct(b),
        forall|x: Seq<char>| a.contains(x) ==> !b.contains(x),
    ensures
        distinct(a + b),
{
    assert forall|i: int, j: int|
        0 <= i < (a + b).len() && 0 <= j < (a + b).len() && i != j implies (a + b)[i] != (a
        + b)[j] by {
        if i < a.len() && j >= a.len() {
            assert(a.contains(a[i]));
            assert(b.contains(b[j - a.len()]));
        } else if i >= a.len() && j < a.len() {
            assert(a.contains(a[j]));
            assert(b.contains(b[i - a.len()]));
        }
    }
}

proof fn lemma_rotate_last(log: Seq<Seq<char>>, q: Seq<Seq<char>>)
    requires
        q.len() > 0,
    ensures
        forall|seeds: Set<Seq<char>>|
            #[trigger] once_unless_seed(log + q, seeds) ==> once_unless_seed(
                log.push(q.last()) + q.drop_last(),
                seeds,
            ),
{
    let a = log + q;
    let b = log.push(q.last()) + q.drop_last();
    let n = log.len();
    assert forall|seeds: Set<Seq<char>>| #[trigger] once_unless_seed(a, seeds) implies once_unless_seed(b, seeds) by {
        assert forall|i: int, j: int|
            #![trigger b[i], b[j]]
            0 <= i < b.len() && 0 <= j < b.len() && i != j && b[i] == b[j] implies seeds.contains(
            b[i],
        ) by {
            let i2 = if i < n { i } else if i == n { a.len() - 1 } else { i - 1 };
            let j2 = if j < n { j } else if j == n { a.len() - 1 } else { j - 1 };
            assert(b[i] == a[i2]);
            assert(b[j] == a[j2]);
            assert(a[i2] == a[j2] && i2 != j2);
        }
    }
}

proof fn lemma_once_append(a: Seq<Seq<char>>, f: Seq<Seq<char>>, seeds: Set<Seq<char>>)
    requires
        once_unless_seed(a, seeds),
        distinct(f),
        forall|x: Seq<char>| f.contains(x) && !seeds.contains(x) ==> !a.contains(x),
    ensures
        once_unless_seed(a + f, seeds),
{
    let c = a + f;
    assert forall|i: int, j: int|
        #![trigger c[i], c[j]]
        0 <= i < c.len() && 0 <= j < c.len() && i != j && c[i] == c[j] implies seeds.contains(
        c[i],
    ) by {
        if i < a.len() && j < a.len() {
            assert(a[i] == a[j]);
        } else if i >= a.len() && j >= a.len() {
            assert(f[i - a.len()] == f[j - a.len()]);
        } else if i < a.len() {
            assert(a.contains(a[i]));
            assert(f.contains(f[j - a.len()]));
        } else {
            assert(a.contains(a[j]));
            assert(f.contains(f[i - a.len()]));
        }
    }
}

/// The items of `items` not in `visited`, in order.
pub open spec fn unvisited(items: Seq<Seq<char>>, visited: Set<Seq<char>>) -> Seq<Seq<char>>
    decreases items.len(),
{
    if items.len() == 0 {
        Seq::empty()
    } else {
        let rest = unvisited(items.drop_last(), visited);
        if visited.contains(items.last()) {
            rest
        } else {
            rest.push(items.last())
        }
    }
}

/// Popping from the end of `queue` until a page not in `visited` comes: that page (or
/// `None` when the queue runs out) and what is left of the queue.
pub open spec fn pop_unvisited(queue: Seq<Seq<char>>, visited: Set<Seq<char>>) -> (
    Option<Seq<char>>,
    Seq<Seq<char>>,
)
    decreases queue.len(),
{
    if queue.len() == 0 {
        (None, queue)
    } else if visited.contains(queue.last()) {
        pop_unvisited(queue.drop_last(), visited)
    } else {
        (Some(queue.last()), queue.drop_last())
    }
}

/// The state of a crawl through listing pages.
pub struct PageCrawl {
    /// Pages still to visit; the last one is visited first.
    pub page_queue: Vec<String>,
    /// Pages already visited.
    pub visited: StringSet,
    /// Recipe URLs already reported.
    pub seen_recipes: StringSet,
    /// The pages handed out for fetching so far, in order.
    pub fetched: Ghost<Seq<Seq<char>>>,
    /// The recipe URLs reported so far, in order.
    pub reported: Ghost<Seq<Seq<char>>>,
}

impl PageCrawl {
    /// The crawl's bookkeeping agrees with its history: no page was handed out twice and
    /// the visited pages are those handed out; no recipe URL was reported twice and the
    /// recipe URLs met are those reported. Every crawl made by [`Self::new`] and driven by
    /// [`Self::next_page`] and [`Self::absorb_page`] keeps this, so over a whole run each
    /// page is fetched at most once and each recipe URL is reported at most once.
    pub open spec fn wf(&self) -> bool {
        &&& distinct(self.fetched@)
        &&& self.fetched@.to_set() == self.visited@
        &&& distinct(self.reported@)
        &&& self.reported@.to_set() == self.seen_recipes@
    }

    /// A crawl that starts from `seeds`.
    pub fn new(seeds: Vec<String>) -> (r: PageCrawl)
        ensures
            r.page_queue@ == seeds@,
            r.visited@ == Set::<Seq<char>>::empty(),
            r.seen_recipes@ == Set::<Seq<char>>::empty(),
            r.fetched@ == Seq::<Seq<char>>::empty(),
            r.reported@ == Seq::<Seq<char>>::empty(),
            r.wf(),
    {
        let r = PageCrawl {
            page_queue: seeds,
            visited: StringSet::new(),
            seen_recipes: StringSet::new(),
            fetched: Ghost(Seq::empty()),
            reported: Ghost(Seq::empty()),
        };
        assert(r.fetched@.to_set() =~= r.visited@);
        assert(r.reported@.to_set() =~= r.seen_recipes@);
        r
    }

    /// The next page to visit, now marked visited; `None` when no unvisited page is left.
    pub fn next_page(&mut self) -> (r: Option<String>)
        ensures
            (r.deep_view(), views(final(self).page_queue@)) == pop_unvisited(
                views(old(self).page_queue@),
                old(self).visited@,
            ),
            match r {
                Some(u) => final(self).visited@ == old(self).visited@.insert(u@),
                None => final(self).visited@ == old(self).visited@,
            },
            r matches Some(u) ==> !old(self).visited@.contains(u@),
            final(self).seen_recipes@ == old(self).seen_recipes@,
            match r {
                Some(u) => final(self).fetched@ == old(self).fetched@.push(u@),
                None => final(self).fetched@ == old(self).fetched@,
            },
            final(self).reported@ == old(self).reported@,
            old(self).wf() ==> final(self).wf(),
    {
        loop
            invariant
                self.visited@ == old(self).visited@,
                self.seen_recipes@ == old(self).seen_recipes@,
                self.fetched == old(self).fetched,
                self.reported == old(self).reported,
                pop_unvisited(views(old(self).page_queue@), old(self).visited@) == pop_unvisited(
                    views(self.page_queue@),
                    self.visited@,
                ),
            decreases self.page_queue@.len(),
        {
            let ghost q = self.page_queue@;
            match self.page_queue.pop() {
                None => {
                    assert(views(q) =~= Seq::<Seq<char>>::empty());
                    return None;
                },
                Some(u) => {
                    assert(views(q).last() == u@);
                    assert(views(q).drop_last() =~= views(self.page_queue@));
                    if self.visited.contains(u.as_str()) {
                    } else {
                        let ghost uv = u@;
                        self.visited.insert(u.clone());
                        proof {
                            let old_log = self.fetched@;
                            self.fetched@ = old_log.push(uv);
                            if old(self).wf() {
                                assert(!old_log.contains(uv)) by {
                                    assert(old_log.to_set().contains(uv) == old_log.contains(uv));
                                }
                                lemma_distinct_push(old_log, uv);
                                lemma_push_to_set(old_log, uv);
                            }
                        }
                        return Some(u);
                    }
                },
            }
        }
    }

    /// Takes in what a visited page held: its recipe links and its links to further
    /// listing pages. Returns the recipe URLs not reported before; further pages not yet
    /// visited join the queue.
    pub fn absorb_page(&mut self, recipe_links: Vec<String>, next_links: Vec<String>) -> (r: Vec<
        String,
    >)
        ensures
            views(r@) == fresh_items(views(recipe_links@), old(self).seen_recipes@),
            final(self).seen_recipes@ == old(self).seen_recipes@.union(
                views(recipe_links@).to_set(),
            ),
            views(final(self).page_queue@) == views(old(self).page_queue@) + unvisited(
                views(next_links@),
                old(self).visited@,
            ),
            final(self).visited@ == old(self).visited@,
            final(self).fetched@ == old(self).fetched@,
            final(self).reported@ == old(self).reported@ + views(r@),
            forall|x: Seq<char>| #[trigger] views(r@).contains(x) ==> views(recipe_links@).contains(x),
            old(self).wf() ==> final(self).wf(),
    {
        let ghost seen0 = self.seen_recipes@;
        let ghost links = views(recipe_links@);
        let fresh = report_fresh(&mut self.seen_recipes, recipe_links);
        proof {
            let log = self.reported@;
            let f = views(fresh@);
            lemma_fresh_items(links, seen0);
            if old(self).wf() {
                assert forall|x: Seq<char>| log.contains(x) implies !f.contains(x) by {
                    assert(log.to_set().contains(x) == log.contains(x));
                }
                lemma_distinct_concat(log, f);
                assert forall|x: Seq<char>| #[trigger] (log + f).to_set().contains(x) == self.seen_recipes@.contains(x) by {
                    lemma_concat_contains(log, f, x);
                    assert(log.to_set().contains(x) == log.contains(x));
                    assert(links.to_set().contains(x) == links.contains(x));
                }
                assert((log + f).to_set() =~= self.seen_recipes@);
            }
            self.reported@ = log + f;
        }
        let n = next_links.len();
        let ghost q0 = views(self.page_queue@);
        assert(views(next_links@).take(0) =~= Seq::<Seq<char>>::empty());
        assert(q0 + Seq::<Seq<char>>::empty() =~= q0);
        let ghost seen_after = self.seen_recipes@;
        for i in 0..n
            invariant
                n == next_links@.len(),
                self.visited@ == old(self).visited@,
                self.seen_recipes@ == seen_after,
                self.fetched == old(self).fetched,
                self.reported@ == old(self).reported@ + views(fresh@),
                old(self).wf() ==> self.wf(),
                views(self.page_queue@) == q0 + unvisited(
                    views(next_links@).take(i as int),
                    self.visited@,
                ),
        {
            let ghost t = views(next_links@).take(i + 1);
            assert(t.drop_last() =~= views(next_links@).take(i as int));
            assert(t.last() == next_links@[i as int]@);
            if !self.visited.contains(next_links[i].as_str()) {
                let ghost before = views(self.page_queue@);
                self.page_queue.push(next_links[i].clone());
                assert(views(self.page_queue@) =~= before.push(next_links@[i as int]@));
                assert(before.push(next_links@[i as int]@) =~= q0 + unvisited(t, self.visited@));
            }
        }
        assert(views(next_links@).take(n as int) =~= views(next_links@));
        fresh
    }
}

/// What a sitemap crawl does next.
pub enum FrontierStep {
    /// Fetch this sitemap.
    Fetch(String),
    /// Nothing is queued, but fetches are still running and may queue more.
    Wait,
    /// Nothing is queued and nothing is running: the crawl is over.
    Done,
}

/// The state of a crawl through sitemaps, shared by concurrent fetches.
pub struct SitemapFrontier {
    /// Sitemaps still to fetch; the last one is fetched first.
    pub queue: Vec<String>,
    /// Sitemaps already discovered in fetched sitemaps.
    pub seen: StringSet,
    /// Fetches started and not yet finished.
    pub in_flight: usize,
    /// The sitemaps handed out for fetching so far, in order.
    pub handed_out: Ghost<Seq<Seq<char>>>,
}

/// No item occurs twice in `items` unless it is one of `seeds`.
pub open spec fn once_unless_seed(items: Seq<Seq<char>>, seeds: Set<Seq<char>>) -> bool {
    forall|i: int, j: int|
        #![trigger items[i], items[j]]
        0 <= i < items.len() && 0 <= j < items.len() && i != j && items[i] == items[j]
            ==> seeds.contains(items[i])
}

impl SitemapFrontier {
    /// `x` is still queued or was handed out for fetching.
    pub open spec fn accounted(&self, x: Seq<char>) -> bool {
        views(self.queue@).contains(x) || self.handed_out@.contains(x)
    }

    /// The sitemaps handed out so far followed by those still queued.
    pub open spec fn handed_then_queued(&self) -> Seq<Seq<char>> {
        self.handed_out@ + views(self.queue@)
    }

    /// The crawl from `seeds` is on track: every seed and every sitemap discovered so far
    /// is still queued or was handed out; every other sitemap queued or handed out was
    /// discovered; and apart from seeds, no sitemap is queued or handed out twice.
    pub open spec fn covers(&self, seeds: Set<Seq<char>>) -> bool {
        &&& forall|x: Seq<char>|
            (seeds.contains(x) || self.seen@.contains(x)) ==> #[trigger] self.accounted(x)
        &&& forall|x: Seq<char>|
            #[trigger] self.accounted(x) && !seeds.contains(x) ==> self.seen@.contains(x)
        &&& once_unless_seed(self.handed_then_queued(), seeds)
    }

    /// A crawl that starts from `seeds`.
    pub fn new(seeds: Vec<String>) -> (r: SitemapFrontier)
        ensures
            r.queue@ == seeds@,
            r.seen@ == Set::<Seq<char>>::empty(),
            r.in_flight == 0,
            r.handed_out@ == Seq::<Seq<char>>::empty(),
            r.covers(views(seeds@).to_set()),
    {
        let r = SitemapFrontier {
            queue: seeds,
            seen: StringSet::new(),
            in_flight: 0,
            handed_out: Ghost(Seq::empty()),
        };
        assert(r.handed_then_queued() =~= views(r.queue@));
        assert forall|i: int, j: int|
            #![trigger r.handed_then_queued()[i], r.handed_then_queued()[j]]
            0 <= i < r.handed_then_queued().len() && 0 <= j < r.handed_then_queued().len() && i
                != j && r.handed_then_queued()[i] == r.handed_then_queued()[j] implies views(
            r.queue@,
        ).to_set().contains(r.handed_then_queued()[i]) by {
            assert(views(r.queue@).contains(views(r.queue@)[i]));
        }
        assert forall|x: Seq<char>|
            (views(r.queue@).to_set().contains(x) || r.seen@.contains(x)) implies #[trigger] r.accounted(
            x,
        ) by {
            assert(views(r.queue@).to_set().contains(x) ==> views(r.queue@).contains(x));
        }
        r
    }

    /// The next thing to do: fetch the last queued sitemap (now counted as running), wait
    /// for running fetches, or stop.
    pub fn next(&mut self) -> (r: FrontierStep)
        requires
            old(self).in_flight < usize::MAX,
        ensures
            final(self).seen@ == old(self).seen@,
            old(self).queue@.len() > 0 ==> (r matches FrontierStep::Fetch(u) && u@ == old(
                self,
            ).queue@.last()@ && final(self).queue@ == old(self).queue@.drop_last()
                && final(self).in_flight == old(self).in_flight + 1),
            old(self).queue@.len() == 0 ==> final(self).queue@ == old(self).queue@
                && final(self).in_flight == old(self).in_flight && (if old(self).in_flight == 0 {
                r is Done
            } else {
                r is Wait
            }),
            match r {
                FrontierStep::Fetch(u) => final(self).handed_out@ == old(self).handed_out@.push(u@),
                _ => final(self).handed_out@ == old(self).handed_out@,
            },
            forall|seeds: Set<Seq<char>>| #[trigger] old(self).covers(seeds) ==> final(self).covers(seeds),
    {
        let ghost q0 = views(self.queue@);
        match self.queue.pop() {
            Some(u) => {
                self.in_flight = self.in_flight + 1;
                proof {
                    let log0 = self.handed_out@;
                    self.handed_out@ = log0.push(u@);
                    assert(views(self.queue@) =~= q0.drop_last());
                    assert(q0.last() == u@);
                    assert forall|x: Seq<char>| #[trigger] log0.push(u@).contains(x) <==> (log0.contains(x) || x == u@) by {
                        lemma_push_to_set(log0, u@);
                        assert(log0.push(u@).to_set().contains(x) == log0.push(u@).contains(x));
                        assert(log0.to_set().contains(x) == log0.contains(x));
                    }
                    assert forall|x: Seq<char>| #[trigger] views(self.queue@).contains(x) implies q0.contains(x) by {
                        let k = choose|k: int| 0 <= k < views(self.queue@).len() && views(self.queue@)[k] == x;
                        assert(q0[k] == x);
                    }
                    assert(q0.contains(u@)) by {
                        assert(q0[q0.len() - 1] == u@);
                    }
                    lemma_rotate_last(log0, q0);
                    assert forall|x: Seq<char>| q0.contains(x) implies #[trigger] views(self.queue@).contains(x) || x == u@ by {
                        let k = choose|k: int| 0 <= k < q0.len() && q0[k] == x;
                        if k < q0.len() - 1 {
                            assert(views(self.queue@)[k] == x);
                        }
                    }
                    assert forall|seeds: Set<Seq<char>>| #[trigger] old(self).covers(seeds) implies self.covers(seeds) by {
                        assert forall|x: Seq<char>| (seeds.contains(x) || self.seen@.contains(x)) implies #[trigger] self.accounted(x) by {
                            assert(old(self).accounted(x));
                        }
                        assert forall|x: Seq<char>| #[trigger] self.accounted(x) && !seeds.contains(x) implies self.seen@.contains(x) by {
                            assert(old(self).accounted(x));
                        }
                        assert(old(self).handed_then_queued() == log0 + q0);
                        assert(self.handed_then_queued() == log0.push(u@) + q0.drop_last());
                    }
                }
                FrontierStep::Fetch(u)
            },
            None => {
                proof {
                    assert(views(self.queue@) =~= q0);
                    assert(self.handed_then_queued() =~= old(self).handed_then_queued());
                    assert forall|seeds: Set<Seq<char>>| #[trigger] old(self).covers(seeds) implies self.covers(seeds) by {
                        assert forall|x: Seq<char>| (seeds.contains(x) || self.seen@.contains(x)) implies #[trigger] self.accounted(x) by {
                            assert(old(self).accounted(x));
                        }
                        assert forall|x: Seq<char>| #[trigger] self.accounted(x) && !seeds.contains(x) implies self.seen@.contains(x) by {
                            assert(old(self).accounted(x));
                        }
                    }
                }
                if self.in_flight == 0 {
                    FrontierStep::Done
                } else {
                    FrontierStep::Wait
                }
            },
        }
    }

    /// A fetch has finished, naming these further sitemaps (none when it failed): those not
    /// discovered before are queued, each once.
    pub fn finish(&mut self, found: Vec<String>)
        requires
            old(self).in_flight > 0,
        ensures
            views(final(self).queue@) == views(old(self).queue@) + fresh_items(
                views(found@),
                old(self).seen@,
            ),
            final(self).seen@ == old(self).seen@.union(views(found@).to_set()),
            final(self).in_flight == old(self).in_flight - 1,
            final(self).handed_out@ == old(self).handed_out@,
            forall|seeds: Set<Seq<char>>| #[trigger] old(self).covers(seeds) ==> final(self).covers(seeds),
    {
        let ghost fresh_spec = fresh_items(views(found@), self.seen@);
        let ghost q_old = views(self.queue@);
        let ghost seen_old = self.seen@;
        let ghost found_v = views(found@);
        let fresh = report_fresh(&mut self.seen, found);
        let ghost q0 = views(self.queue@);
        let n = fresh.len();
        assert(q0 + views(fresh@).take(0) =~= q0);
        let ghost seen_after = self.seen@;
        for i in 0..n
            invariant
                n == fresh@.len(),
                views(self.queue@) == q0 + views(fresh@).take(i as int),
                self.seen@ == seen_after,
                self.in_flight == old(self).in_flight,
                self.in_flight > 0,
                self.handed_out == old(self).handed_out,
        {
            let ghost before = views(self.queue@);
            self.queue.push(fresh[i].clone());
            assert(views(self.queue@) =~= before.push(fresh@[i as int]@));
            assert(views(fresh@).take(i + 1) =~= views(fresh@).take(i as int).push(fresh@[i as int]@));
            assert(views(self.queue@) =~= q0 + views(fresh@).take(i + 1));
        }
        assert(views(fresh@).take(n as int) =~= views(fresh@));
        self.in_flight = self.in_flight - 1;
        proof {
            lemma_fresh_items(found_v, seen_old);
            assert(views(fresh@) == fresh_spec);
            assert(q0 == q_old);
            assert forall|seeds: Set<Seq<char>>| #[trigger] old(self).covers(seeds) implies self.covers(seeds) by {
                assert forall|x: Seq<char>| (seeds.contains(x) || self.seen@.contains(x)) implies #[trigger] self.accounted(x) by {
                    lemma_concat_contains(q_old, fresh_spec, x);
                    assert(found_v.to_set().contains(x) <==> found_v.contains(x));
                    if seeds.contains(x) || old(self).seen@.contains(x) {
                        assert(old(self).accounted(x));
                    } else {
                        assert(fresh_spec.contains(x));
                    }
                }
                assert forall|x: Seq<char>| #[trigger] self.accounted(x) && !seeds.contains(x) implies self.seen@.contains(x) by {
                    lemma_concat_contains(q_old, fresh_spec, x);
                    assert(found_v.to_set().contains(x) <==> found_v.contains(x));
                    if old(self).accounted(x) {
                    } else {
                        assert(fresh_spec.contains(x));
                    }
                }
                let a = old(self).handed_then_queued();
                assert(self.handed_then_queued() =~= a + fresh_spec);
                assert forall|x: Seq<char>| fresh_spec.contains(x) && !seeds.contains(x) implies !a.contains(x) by {
                    lemma_concat_contains(old(self).handed_out@, q_old, x);
                    if a.contains(x) {
                        assert(old(self).accounted(x));
                    }
                }
                lemma_once_append(a, fresh_spec, seeds);
            }
        }
    }
}

/// Recipe URLs reported by two successive pages of a crawl never repeat: each report is
/// free of repetition, and the second holds nothing the first held.
pub proof fn lemma_reports_never_repeat(
    seen: Set<Seq<char>>,
    first: Seq<Seq<char>>,
    second: Seq<Seq<char>>,
)
    ensures
        distinct(fresh_items(first, seen)),
        distinct(fresh_items(second, seen.union(first.to_set()))),
        forall|x: Seq<char>|
            fresh_items(first, seen).contains(x) ==> !#[trigger] fresh_items(
                second,
                seen.union(first.to_set()),
            ).contains(x),
        forall|x: Seq<char>| #[trigger] fresh_items(first, seen).contains(x) ==> !seen.contains(x),
{
    lemma_fresh_items(first, seen);
    lemma_fresh_items(second, seen.union(first.to_set()));
    assert forall|x: Seq<char>|
        fresh_items(first, seen).contains(x) implies !#[trigger] fresh_items(
            second,
            seen.union(first.to_set()),
        ).contains(x) by {
        assert(first.contains(x));
        assert(first.to_set().contains(x));
    }
}

/// The reports of a run of [`report_fresh`] calls that start from the seen set `seen` and are
/// handed `found[0]`, `found[1]`, ... in turn, one after another: each call sees `seen` with
/// everything handed to earlier calls, as `report_fresh`'s contract leaves it.
pub open spec fn run_reports(seen: Set<Seq<char>>, found: Seq<Seq<Seq<char>>>) -> Seq<Seq<char>>
    decreases found.len(),
{
    if found.len() == 0 {
        Seq::empty()
    } else {
        run_reports(seen, found.drop_last()) + fresh_items(
            found.last(),
            seen.union(flatten(found.drop_last()).to_set()),
        )
    }
}

proof fn lemma_concat_contains(a: Seq<Seq<char>>, b: Seq<Seq<char>>, x: Seq<char>)
    ensures
        (a + b).contains(x) <==> (a.contains(x) || b.contains(x)),
{
    if (a + b).contains(x) {
        let k = choose|k: int| 0 <= k < (a + b).len() && (a + b)[k] == x;
        if k < a.len() {
            assert(a[k] == x);
        } else {
            assert(b[k - a.len()] == x);
        }
    }
    if a.contains(x) {
        let k = choose|k: int| 0 <= k < a.len() && a[k] == x;
        assert((a + b)[k] == x);
    }
    if b.contains(x) {
        let k = choose|k: int| 0 <= k < b.len() && b[k] == x;
        assert((a + b)[a.len() + k] == x);
    }
}

/// Over a whole crawl nothing is reported twice: the reports of any run of
/// [`report_fresh`] calls (so of [`PageCrawl::absorb_page`] for recipe URLs, and of
/// [`SitemapFrontier::finish`] for queued sitemaps, which start from an empty seen set)
/// hold no item twice, hold nothing seen before the run, and hold every item handed in
/// that was not seen before. After each call the seen set is the starting set with
/// everything handed in so far.
pub proof fn lemma_crawl_reports_never_repeat(seen: Set<Seq<char>>, found: Seq<Seq<Seq<char>>>)
    ensures
        distinct(run_reports(seen, found)),
        forall|x: Seq<char>| #[trigger] run_reports(seen, found).contains(x) <==> (flatten(
            found,
        ).contains(x) && !seen.contains(x)),
        found.len() > 0 ==> seen.union(flatten(found.drop_last()).to_set()).union(
            found.last().to_set(),
        ) == seen.union(flatten(found).to_set()),
    decreases found.len(),
{
    if found.len() > 0 {
        let init = found.drop_last();
        let last = found.last();
        let before = run_reports(seen, init);
        let s1 = seen.union(flatten(init).to_set());
        let fresh = fresh_items(last, s1);
        lemma_crawl_reports_never_repeat(seen, init);
        lemma_fresh_items(last, s1);
        assert(flatten(found) == flatten(init) + last);
        assert forall|x: Seq<char>| flatten(found).contains(x) <==> (flatten(init).contains(x)
            || last.contains(x)) by {
            lemma_concat_contains(flatten(init), last, x);
        }
        assert forall|x: Seq<char>| #[trigger] run_reports(seen, found).contains(x) <==> (
        flatten(found).contains(x) && !seen.contains(x)) by {
            lemma_concat_contains(before, fresh, x);
            lemma_concat_contains(flatten(init), last, x);
            assert(before.contains(x) <==> (flatten(init).contains(x) && !seen.contains(x)));
            assert(fresh.contains(x) <==> (last.contains(x) && !s1.contains(x)));
            assert(flatten(init).to_set().contains(x) <==> flatten(init).contains(x));
        }
        assert forall|i: int, j: int|
            0 <= i < (before + fresh).len() && 0 <= j < (before + fresh).len() && i != j implies (
            before + fresh)[i] != (before + fresh)[j] by {
            if i < before.len() && j >= before.len() {
                assert(before.contains(before[i]));
                assert(fresh.contains(fresh[j - before.len()]));
            } else if i >= before.len() && j < before.len() {
                assert(before.contains(before[j]));
                assert(fresh.contains(fresh[i - before.len()]));
            }
        }
        assert forall|x: Seq<char>| #[trigger] seen.union(flatten(init).to_set()).union(
            last.to_set(),
        ).contains(x) == seen.union(flatten(found).to_set()).contains(x) by {
            lemma_concat_contains(flatten(init), last, x);
            assert(flatten(init).to_set().contains(x) <==> flatten(init).contains(x));
            assert(last.to_set().contains(x) <==> last.contains(x));
            assert(flatten(found).to_set().contains(x) <==> flatten(found).contains(x));
        }
        assert(seen.union(flatten(init).to_set()).union(last.to_set()) =~= seen.union(
            flatten(found).to_set(),
        ));
    }
}

/// A page crawl fetches no page twice: pages handed out one after another, each not
/// visited before it (as [`PageCrawl::next_page`] hands them out, marking each visited),
/// are all different, and none of them was visited before the run.
pub proof fn lemma_pages_visited_once(visited: Set<Seq<char>>, pages: Seq<Seq<char>>)
    requires
        forall|i: int|
            0 <= i < pages.len() ==> !visited.union(pages.take(i).to_set()).contains(
                #[trigger] pages[i],
            ),
    ensures
        distinct(pages),
        forall|i: int| 0 <= i < pages.len() ==> !visited.contains(#[trigger] pages[i]),
{
    assert forall|i: int, j: int|
        0 <= i < pages.len() && 0 <= j < pages.len() && i != j implies pages[i] != pages[j] by {
        if i < j {
            assert(pages.take(j)[i] == pages[i]);
            assert(pages.take(j).contains(pages[i]));
            assert(!visited.union(pages.take(j).to_set()).contains(pages[j]));
        } else {
            assert(pages.take(i)[j] == pages[j]);
            assert(pages.take(i).contains(pages[j]));
            assert(!visited.union(pages.take(i).to_set()).contains(pages[i]));
        }
    }
    assert forall|i: int| 0 <= i < pages.len() implies !visited.contains(#[trigger] pages[i]) by {
        assert(!visited.union(pages.take(i).to_set()).contains(pages[i]));
    }
}

/// A sitemap crawl that has nothing left queued has handed out for fetching every seed and
/// every sitemap discovered in the sitemaps fetched, and apart from seeds it handed out no
/// sitemap twice: when [`SitemapFrontier::next`] answers `Done`, every sitemap reachable
/// from the seeds has been fetched, each discovered one exactly once.
pub proof fn lemma_finished_crawl_fetched_all(f: SitemapFrontier, seeds: Set<Seq<char>>)
    requires
        f.covers(seeds),
        f.queue@.len() == 0,
    ensures
        forall|x: Seq<char>|
            seeds.contains(x) || f.seen@.contains(x) ==> #[trigger] f.handed_out@.contains(x),
        once_unless_seed(f.handed_out@, seeds),
{
    assert(views(f.queue@).len() == 0);
    assert(f.handed_then_queued() =~= f.handed_out@);
    assert forall|x: Seq<char>| seeds.contains(x) || f.seen@.contains(x) implies #[trigger] f.handed_out@.contains(x) by {
        assert(f.accounted(x));
    }
}

proof fn lemma_flatten_contains(found: Seq<Seq<Seq<char>>>, x: Seq<char>)
    requires
        flatten(found).contains(x),
    ensures
        exists|i: int| 0 <= i < found.len() && #[trigger] found[i].contains(x),
    decreases found.len(),
{
    let init = found.drop_last();
    lemma_concat_contains(flatten(init), found.last(), x);
    if flatten(init).contains(x) {
        lemma_flatten_contains(init, x);
        let i = choose|i: int| 0 <= i < init.len() && #[trigger] init[i].contains(x);
        assert(found[i] == init[i]);
    } else {
        assert(found[found.len() - 1].contains(x));
    }
}

/// Over a whole crawl, every recipe URL reported passes the site's rule when every batch of
/// links handed in does, as [`crate::links::extract_page_links`] gives them.
pub proof fn lemma_crawl_reports_accepted(
    seen: Set<Seq<char>>,
    found: Seq<Seq<Seq<char>>>,
    rule: UrlRule,
)
    requires
        forall|i: int| 0 <= i < found.len() ==> all_accepted(#[trigger] found[i], rule),
    ensures
        all_accepted(run_reports(seen, found), rule),
{
    lemma_crawl_reports_never_repeat(seen, found);
    let rep = run_reports(seen, found);
    assert forall|k: int| 0 <= k < rep.len() implies rule.accepts(#[trigger] rep[k]) by {
        let x = rep[k];
        assert(rep.contains(x));
        lemma_flatten_contains(found, x);
        let i = choose|i: int| 0 <= i < found.len() && #[trigger] found[i].contains(x);
        let j = choose|j: int| 0 <= j < found[i].len() && found[i][j] == x;
        assert(all_accepted(found[i], rule));
    }
}

} // verus!
