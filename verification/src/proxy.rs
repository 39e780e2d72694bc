//! The configured outgoing proxies, and the choice among them.

use vstd::prelude::*;
use crate::fetch::random_below;
use crate::text::{split_on, split_seq, trim, trim_seq, views};

verus! {

/// The trimmed, non-empty entries of a list of pieces, in order.
pub open spec fn nonempty_trimmed(parts: Seq<Seq<char>>) -> Seq<Seq<char>>
    decreases parts.len(),
{
    if parts.len() == 0 {
        Seq::empty()
    } else {
        let rest = nonempty_trimmed(parts.drop_last());
        let t = trim_seq(parts.last());
        if t.len() > 0 {
            rest.push(t)
        } else {
            rest
        }
    }
}

/// The proxies named by the two settings: a non-empty comma-separated list wins, its
/// entries trimmed and blank ones dropped; otherwise a non-empty single URL; `None` when
/// neither names any proxy.
pub open spec fn proxy_urls_spec(list: Option<Seq<char>>, single: Option<Seq<char>>) -> Option<
    Seq<Seq<char>>,
> {
    let urls = if list is Some && list->0.len() > 0 {
        Some(nonempty_trimmed(split_seq(list->0, ',')))
    } else if single is Some && single->0.len() > 0 {
        Some(seq![single->0])
    } else {
        None
    };
    match urls {
        Some(u) => if u.len() > 0 {
            Some(u)
        } else {
            None
        },
        None => None,
    }
}

/// The proxy URLs named by a comma-separated list setting and a single-URL setting.
pub fn parse_proxy_list(list: Option<String>, single: Option<String>) -> (r: Option<Vec<String>>)
    ensures
        match r {
            Some(v) => proxy_urls_spec(list.deep_view(), single.deep_view()) == Some(views(v@)),
            None => proxy_urls_spec(list.deep_view(), single.deep_view()) is None,
        },
{
    let urls: Vec<String> = match list {
        Some(l) if !l.as_str().is_empty() => {
            let parts = split_on(l.as_str(), ',');
            let mut kept: Vec<String> = Vec::new();
            let n = parts.len();
            assert(views(parts@).take(0) =~= Seq::<Seq<char>>::empty());
            assert(views(kept@) =~= Seq::<Seq<char>>::empty());
            for i in 0..n
                invariant
                    n == parts@.len(),
                    views(kept@) == nonempty_trimmed(views(parts@).take(i as int)),
            {
                let ghost t = views(parts@).take(i + 1);
                assert(t.drop_last() =~= views(parts@).take(i as int));
                assert(t.last() == parts@[i as int]@);
                let p = trim(parts[i].as_str());
                if !p.as_str().is_empty() {
                    let ghost before = kept@;
                    kept.push(p);
                    assert(views(kept@) =~= views(before).push(p@));
                }
            }
            assert(views(parts@).take(n as int) =~= views(parts@));
            kept
        },
        _ => match single {
            Some(u) if !u.as_str().is_empty() => {
                let mut v: Vec<String> = Vec::new();
                let ghost uv = u@;
                v.push(u);
                assert(views(v@) =~= seq![uv]);
                v
            },
            _ => {
                return None;
            },
        },
    };
    if urls.len() == 0 {
        return None;
    }
    Some(urls)
}

/// A non-empty set of proxies (or clients bound to proxies) to spread requests over.
pub struct ProxyPool<T> {
    /// The proxies, in the order they were configured.
    pub proxies: Vec<T>,
}

impl<T> ProxyPool<T> {
    /// A pool of `proxies`; `None` when there are none.
    pub fn new(proxies: Vec<T>) -> (r: Option<ProxyPool<T>>)
        ensures
            match r {
                Some(p) => p.proxies@ == proxies@ && proxies@.len() > 0,
                None => proxies@.len() == 0,
            },
    {
        if proxies.len() == 0 {
            None
        } else {
            Some(ProxyPool { proxies })
        }
    }

    /// The proxy at `index`, counted around the pool; `None` for an empty pool.
    pub fn pick(&self, index: usize) -> (r: Option<&T>)
        ensures
            r == (if self.proxies@.len() == 0 {
                None
            } else {
                Some(&self.proxies@[(index % self.proxies@.len() as usize) as int])
            }),
    {
        let n = self.proxies.len();
        if n == 0 {
            None
        } else {
            Some(&self.proxies[index % n])
        }
    }

    /// A proxy drawn at random; `None` for an empty pool.
    pub fn next(&self) -> (r: Option<&T>)
        ensures
            self.proxies@.len() == 0 <==> r is None,
            r matches Some(p) ==> exists|i: int|
                0 <= i < self.proxies@.len() && p == &self.proxies@[i],
    {
        let n = self.proxies.len();
        if n == 0 {
            return None;
        }
        let i = random_below(n as u64) as usize;
        Some(&self.proxies[i])
    }
}

} // verus!
