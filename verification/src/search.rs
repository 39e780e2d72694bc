//! How a recipe search is put together before the index is asked.

use vstd::prelude::*;
use vstd::string::StringSliceAdditionalSpecFns;
use crate::sites::{owned_strings, str_views};
use crate::text::{push_char, split_words, str_eq, views, words_seq};

verus! {

/// What the index is asked for one search.
pub struct SearchPlan {
    /// The query's words.
    pub words: Vec<String>,
    /// Every word must match (three words or more); otherwise any word may.
    pub require_all_words: bool,
    /// The words as a phrase in titles raise the score (two words or more).
    pub phrase_boost: bool,
    /// Publications whose recipes score a little higher.
    pub boosted_publications: Vec<String>,
    /// How many hits to skip.
    pub offset: usize,
    /// How many hits to return.
    pub limit: usize,
    /// How many top hits to collect: the offset plus the limit.
    pub fetch_count: u64,
}

/// The plan of a search for `query` with the given window: none for a query shorter than
/// two bytes; otherwise the query's words, the matching mode by the word count, the boosted
/// publications, and the window with negative values read as 0.
pub fn plan_search(query: &str, limit: i32, offset: i32) -> (r: Option<SearchPlan>)
    requires
        query.spec_bytes().len() <= usize::MAX,
    ensures
        query.spec_bytes().len() < 2 ==> r is None,
        query.spec_bytes().len() >= 2 ==> (r matches Some(p) && views(p.words@) == words_seq(
            query@,
        ) && p.require_all_words == (words_seq(query@).len() >= 3) && p.phrase_boost == (
        words_seq(query@).len() >= 2) && views(p.boosted_publications@) == str_views(
            seq!["Bon Appétit", "NYT Cooking", "Epicurious"],
        ) && p.limit == (if limit < 0 {
            0
        } else {
            limit as int
        }) && p.offset == (if offset < 0 {
            0
        } else {
            offset as int
        }) && p.fetch_count == p.limit + p.offset),
{
    if query.len() < 2 {
        return None;
    }
    let words = split_words(query);
    let n = words.len();
    let publications: [&str; 3] = ["Bon Appétit", "NYT Cooking", "Epicurious"];
    let boosted = owned_strings(&publications);
    assert(views(boosted@) =~= str_views(seq!["Bon Appétit", "NYT Cooking", "Epicurious"]));
    let l: usize = if limit < 0 {
        0
    } else {
        limit as usize
    };
    let o: usize = if offset < 0 {
        0
    } else {
        offset as usize
    };
    Some(
        SearchPlan {
            words,
            require_all_words: n >= 3,
            phrase_boost: n >= 2,
            boosted_publications: boosted,
            offset: o,
            limit: l,
            fetch_count: l as u64 + o as u64,
        },
    )
}

/// The hits of a page among `total` ranked hits: from the offset (at most `total`) to
/// `limit` further (at most `total`).
pub fn page_bounds(total: usize, offset: usize, limit: usize) -> (r: (usize, usize))
    ensures
        r.0 == (if offset <= total {
            offset
        } else {
            total
        }),
        r.1 == (if r.0 + limit <= total {
            r.0 + limit
        } else {
            total as int
        }),
{
    let start = if offset <= total {
        offset
    } else {
        total
    };
    let end = if limit <= total - start {
        start + limit
    } else {
        total
    };
    (start, end)
}

/// The decimal digit of `d`, below 10.
pub open spec fn digit_char(d: nat) -> char {
    ((48 + d) as u32) as char
}

/// The decimal form of `n`, without leading zeros.
pub open spec fn decimal_seq(n: nat) -> Seq<char>
    decreases n,
{
    if n < 10 {
        seq![digit_char(n)]
    } else {
        decimal_seq(n / 10).push(digit_char(n % 10))
    }
}

/// Appends the decimal form of `n` to `out`.
fn push_decimal(out: &mut String, n: u64)
    ensures
        final(out)@ == old(out)@ + decimal_seq(n as nat),
    decreases n,
{
    if n >= 10 {
        push_decimal(out, n / 10);
    }
    let d: u64 = n % 10;
    let c: char = if d == 0 {
        '0'
    } else if d == 1 {
        '1'
    } else if d == 2 {
        '2'
    } else if d == 3 {
        '3'
    } else if d == 4 {
        '4'
    } else if d == 5 {
        '5'
    } else if d == 6 {
        '6'
    } else if d == 7 {
        '7'
    } else if d == 8 {
        '8'
    } else {
        '9'
    };
    push_char(out, c);
}

/// The positional parameters of a query with `n` bound values: `$1, $2, ..., $n`.
pub open spec fn placeholders_spec(n: nat) -> Seq<char>
    decreases n,
{
    if n == 0 {
        Seq::empty()
    } else if n == 1 {
        seq!['$'] + decimal_seq(1)
    } else {
        placeholders_spec((n - 1) as nat) + seq![',', ' ', '$'] + decimal_seq(n)
    }
}

/// The positional parameters `$1, $2, ..., $n` of a query that binds `n` values.
pub fn sql_placeholders(n: u64) -> (r: String)
    ensures
        r@ == placeholders_spec(n as nat),
{
    let mut out = String::new();
    let mut i: u64 = 0;
    while i < n
        invariant
            i <= n,
            out@ == placeholders_spec(i as nat),
        decreases n - i,
    {
        if i > 0 {
            push_char(&mut out, ',');
            push_char(&mut out, ' ');
        }
        push_char(&mut out, '$');
        push_decimal(&mut out, i + 1);
        i = i + 1;
    }
    out
}

/// The position of the first occurrence of `x` in `items`; `None` when it does not occur.
pub open spec fn first_index(items: Seq<Seq<char>>, x: Seq<char>) -> Option<int>
    decreases items.len(),
{
    if items.len() == 0 {
        None
    } else {
        match first_index(items.drop_last(), x) {
            Some(i) => Some(i),
            None => if items.last() == x {
                Some(items.len() - 1)
            } else {
                None
            },
        }
    }
}

/// For each ranked URL in rank order, the position of the first fetched record with that
/// URL; ranked URLs with no fetched record are skipped.
pub open spec fn rank_order(ranked: Seq<Seq<char>>, found: Seq<Seq<char>>) -> Seq<int>
    decreases ranked.len(),
{
    if ranked.len() == 0 {
        Seq::empty()
    } else {
        let rest = rank_order(ranked.drop_last(), found);
        match first_index(found, ranked.last()) {
            Some(i) => rest.push(i),
            None => rest,
        }
    }
}

proof fn lemma_first_index(items: Seq<Seq<char>>, x: Seq<char>)
    ensures
        match first_index(items, x) {
            Some(i) => 0 <= i < items.len() && items[i] == x && forall|j: int|
                0 <= j < i ==> items[j] != x,
            None => forall|j: int| 0 <= j < items.len() ==> items[j] != x,
        },
    decreases items.len(),
{
    if items.len() > 0 {
        let d = items.drop_last();
        lemma_first_index(d, x);
        assert forall|j: int| 0 <= j < d.len() implies #[trigger] items[j] == d[j] by {}
        if first_index(d, x) is None && items.last() != x {
            assert forall|j: int| 0 <= j < items.len() implies items[j] != x by {
                if j < d.len() {
                    assert(items[j] == d[j]);
                }
            }
        }
    }
}

fn find_first(items: &Vec<String>, x: &str) -> (r: Option<usize>)
    ensures
        match r {
            Some(i) => first_index(views(items@), x@) == Some(i as int),
            None => first_index(views(items@), x@) is None,
        },
{
    let n = items.len();
    proof {
        lemma_first_index(views(items@), x@);
    }
    for i in 0..n
        invariant
            n == items@.len(),
            forall|j: int| 0 <= j < i ==> #[trigger] views(items@)[j] != x@,
            match first_index(views(items@), x@) {
                Some(k) => 0 <= k < views(items@).len() && views(items@)[k] == x@ && forall|j: int|
                    0 <= j < k ==> views(items@)[j] != x@,
                None => forall|j: int| 0 <= j < views(items@).len() ==> views(items@)[j] != x@,
            },
    {
        if str_eq(items[i].as_str(), x) {
            assert(views(items@)[i as int] == x@);
            return Some(i);
        }
    }
    None
}

/// The order in which records fetched by URL are shown: for each URL of `ranked`, in rank
/// order, the position in `found` of the first record with that URL, so that search hits
/// come out in the index's rank order whatever order the store returned them in.
pub fn rank_order_indices(ranked: &Vec<String>, found: &Vec<String>) -> (r: Vec<usize>)
    ensures
        r@.map_values(|i: usize| i as int) == rank_order(views(ranked@), views(found@)),
{
    let mut out: Vec<usize> = Vec::new();
    let n = ranked.len();
    assert(views(ranked@).take(0) =~= Seq::<Seq<char>>::empty());
    assert(out@.map_values(|i: usize| i as int) =~= Seq::<int>::empty());
    for k in 0..n
        invariant
            n == ranked@.len(),
            out@.map_values(|i: usize| i as int) == rank_order(
                views(ranked@).take(k as int),
                views(found@),
            ),
    {
        let ghost t = views(ranked@).take(k + 1);
        assert(t.drop_last() =~= views(ranked@).take(k as int));
        assert(t.last() == ranked@[k as int]@);
        match find_first(found, ranked[k].as_str()) {
            Some(i) => {
                let ghost before = out@;
                out.push(i);
                assert(out@.map_values(|i: usize| i as int) =~= before.map_values(
                    |i: usize| i as int,
                ).push(i as int));
            },
            None => {},
        }
    }
    assert(views(ranked@).take(n as int) =~= views(ranked@));
    out
}

} // verus!
