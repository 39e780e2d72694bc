//! Spacing requests to the same domain.

use vstd::prelude::*;
use crate::text::str_eq;
use crate::urls::{domain_of, domain_spec, spec_url_host};

verus! {

/// The wait before a request at `now` to a domain last requested at `last`, so that
/// requests to one domain are at least `min_delay` apart; no wait for a domain not yet
/// requested. A clock that went backwards counts as no time elapsed.
pub open spec fn wait_spec(min_delay: u64, last: Option<u64>, now: u64) -> u64 {
    match last {
        None => 0,
        Some(t) => {
            let elapsed: int = if now >= t {
                now - t
            } else {
                0
            };
            if elapsed < min_delay {
                (min_delay - elapsed) as u64
            } else {
                0
            }
        },
    }
}

/// Waiting what [`wait_spec`] says puts a request at least `min_delay` after the previous
/// request to the same domain.
pub proof fn lemma_wait_spaces_requests(min_delay: u64, last: u64, now: u64)
    requires
        last <= now,
    ensures
        now + wait_spec(min_delay, Some(last), now) >= last + min_delay,
        now + wait_spec(min_delay, Some(last), now) <= if now >= last + min_delay {
            now as int
        } else {
            last + min_delay
        },
{
}

/// When each domain was last requested, in milliseconds on the caller's clock.
///
/// The entries are held as a list of distinct domains rather than in a `HashMap<String, _>`:
/// vstd specifies `HashMap` lookups and inserts only for key types that obey its key model,
/// which it grants to integers and `bool` but not to `String`, so with `String` keys no
/// contract here could be proved over a `HashMap`.
pub struct DomainRateLimiter {
    min_delay_ms: u64,
    last_request: Vec<(String, u64)>,
}

impl View for DomainRateLimiter {
    type V = Map<Seq<char>, u64>;

    closed spec fn view(&self) -> Map<Seq<char>, u64> {
        Map::new(
            |d: Seq<char>| exists|i: int| 0 <= i < self.last_request@.len() && #[trigger] self.last_request@[i].0@ == d,
            |d: Seq<char>| self.last_request@[self.index_of(d)].1,
        )
    }
}

impl DomainRateLimiter {
    closed spec fn index_of(&self, d: Seq<char>) -> int {
        choose|i: int| 0 <= i < self.last_request@.len() && #[trigger] self.last_request@[i].0@ == d
    }

    /// No domain appears twice.
    #[verifier::type_invariant]
    closed spec fn distinct_domains(&self) -> bool {
        forall|i: int, j: int|
            0 <= i < self.last_request@.len() && 0 <= j < self.last_request@.len() && i != j
                ==> #[trigger] self.last_request@[i].0@ != #[trigger] self.last_request@[j].0@
    }

    /// The spacing between requests to one domain, in milliseconds.
    pub closed spec fn min_delay(&self) -> u64 {
        self.min_delay_ms
    }

    /// A limiter with no requests recorded.
    pub fn new(min_delay_ms: u64) -> (r: DomainRateLimiter)
        ensures
            r@ == Map::<Seq<char>, u64>::empty(),
            r.min_delay() == min_delay_ms,
    {
        let r = DomainRateLimiter { min_delay_ms, last_request: Vec::new() };
        assert(r@ =~= Map::<Seq<char>, u64>::empty());
        r
    }

    /// The spacing between requests to one domain, in milliseconds.
    pub fn min_delay_ms(&self) -> (r: u64)
        ensures
            r == self.min_delay(),
    {
        self.min_delay_ms
    }

    fn find(&self, domain: &str) -> (r: Option<usize>)
        ensures
            match r {
                Some(i) => i < self.last_request@.len() && self.last_request@[i as int].0@ == domain@,
                None => !self@.contains_key(domain@),
            },
    {
        let n = self.last_request.len();
        for i in 0..n
            invariant
                n == self.last_request@.len(),
                forall|k: int| 0 <= k < i ==> #[trigger] self.last_request@[k].0@ != domain@,
        {
            if str_eq(self.last_request[i].0.as_str(), domain) {
                return Some(i);
            }
        }
        None
    }

    /// When `domain` was last requested.
    pub fn last_request(&self, domain: &str) -> (r: Option<u64>)
        ensures
            r == (if self@.contains_key(domain@) {
                Some(self@[domain@])
            } else {
                None
            }),
    {
        proof {
            use_type_invariant(self);
        }
        match self.find(domain) {
            Some(i) => {
                assert(self@.contains_key(domain@));
                assert(self.index_of(domain@) == i as int);
                Some(self.last_request[i].1)
            },
            None => None,
        }
    }

    /// Records a request to `domain` at `at_ms`.
    pub fn record(&mut self, domain: String, at_ms: u64)
        ensures
            final(self)@ == old(self)@.insert(domain@, at_ms),
            final(self).min_delay() == old(self).min_delay(),
    {
        proof {
            use_type_invariant(&*self);
        }
        let ghost old_view = self@;
        match self.find(domain.as_str()) {
            Some(i) => {
                let mut entries: Vec<(String, u64)> = Vec::new();
                std::mem::swap(&mut entries, &mut self.last_request);
                let ghost before = entries@;
                entries.set(i, (domain, at_ms));
                self.last_request = entries;
                assert forall|d: Seq<char>| #[trigger] self@.contains_key(d) == old_view.insert(
                    domain@,
                    at_ms,
                ).contains_key(d) by {
                    if d != domain@ && old_view.contains_key(d) {
                        let k = choose|k: int| 0 <= k < before.len() && #[trigger] before[k].0@ == d;
                        assert(self.last_request@[k].0@ == d);
                    }
                    if d == domain@ {
                        assert(self.last_request@[i as int].0@ == d);
                    }
                }
                assert(self@ =~= old_view.insert(domain@, at_ms));
            },
            None => {
                let ghost d0 = domain@;
                let mut entries: Vec<(String, u64)> = Vec::new();
                std::mem::swap(&mut entries, &mut self.last_request);
                let ghost before = entries@;
                let ghost n = before.len() as int;
                entries.push((domain, at_ms));
                self.last_request = entries;
                proof {
                    use_type_invariant(&*self);
                }
                assert forall|d: Seq<char>| #[trigger] self@.contains_key(d) == old_view.insert(
                    d0,
                    at_ms,
                ).contains_key(d) by {
                    if d != d0 && old_view.contains_key(d) {
                        let k = choose|k: int| 0 <= k < before.len() && #[trigger] before[k].0@ == d;
                        assert(self.last_request@[k].0@ == d);
                    }
                    if d == d0 {
                        assert(self.last_request@[n].0@ == d);
                    }
                }
                assert forall|d: Seq<char>| #[trigger] self@.contains_key(d) implies self@[d]
                    == old_view.insert(d0, at_ms)[d] by {
                    let i = self.index_of(d);
                    assert(self.last_request@[i].0@ == d);
                    if d == d0 {
                        assert(self.last_request@[n].0@ == d);
                        assert(i == n);
                    } else {
                        let k = choose|k: int| 0 <= k < before.len() && #[trigger] before[k].0@ == d;
                        assert(self.last_request@[k].0@ == d);
                        assert(i == k);
                        assert(old(self).last_request@[k].0@ == d);
                        assert(old(self).index_of(d) == k);
                    }
                }
                assert(self@ =~= old_view.insert(d0, at_ms));
            },
        }
    }

    /// How long a request at `now_ms` to `domain` must wait.
    pub fn wait_for(&self, domain: &str, now_ms: u64) -> (r: u64)
        ensures
            r == wait_spec(
                self.min_delay(),
                if self@.contains_key(domain@) {
                    Some(self@[domain@])
                } else {
                    None
                },
                now_ms,
            ),
    {
        match self.last_request(domain) {
            None => 0,
            Some(t) => {
                let elapsed = if now_ms >= t {
                    now_ms - t
                } else {
                    0
                };
                if elapsed < self.min_delay_ms {
                    self.min_delay_ms - elapsed
                } else {
                    0
                }
            },
        }
    }

    /// Before a request for `url` at `now_ms`: the URL's domain and how long to wait before
    /// sending; `None` when the URL does not parse, in which case nothing is waited for or
    /// recorded. After waiting, the caller records the request with [`Self::record`].
    pub fn wait_if_needed(&self, url: &str, now_ms: u64) -> (r: Option<(String, u64)>)
        ensures
            match domain_spec(spec_url_host(url@)) {
                None => r is None,
                Some(d) => r matches Some((domain, wait)) && domain@ == d && wait == wait_spec(
                    self.min_delay(),
                    if self@.contains_key(d) {
                        Some(self@[d])
                    } else {
                        None
                    },
                    now_ms,
                ),
            },
    {
        match domain_of(url) {
            None => None,
            Some(domain) => {
                let wait = self.wait_for(domain.as_str(), now_ms);
                Some((domain, wait))
            },
        }
    }
}

} // verus!
