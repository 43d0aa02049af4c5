//! Fuzzy filtering of a pull-request list against a search query.

use vstd::prelude::*;
use vstd::string::*;
use crate::models::{PullRequest, PrView};
use crate::text::{decimal, push_decimal};
use crate::types::ci_status_label;
use nucleo_matcher::pattern::{CaseMatching, Normalization, Pattern};

verus! {

/// The score that nucleo's fuzzy matcher gives `haystack` for `query`, or
/// `None` when the haystack does not match.
pub uninterp spec fn fuzzy_score_of(query: Seq<char>, haystack: Seq<char>) -> Option<u32>;

/// Relies on nucleo_matcher's `Pattern::parse` (case ignored, smart
/// normalization) and `Pattern::score` under the default `Config`, as its
/// `Pattern::match_list` scores each item: the score depends on the query
/// and the haystack alone.
#[verifier::external_body]
fn fuzzy_score(query: &str, haystack: &str) -> (r: Option<u32>)
    ensures
        r == fuzzy_score_of(query@, haystack@),
{
    let mut matcher = nucleo_matcher::Matcher::new(nucleo_matcher::Config::DEFAULT);
    let pattern = Pattern::parse(query, CaseMatching::Ignore, Normalization::Smart);
    let mut buf = Vec::new();
    pattern.score(nucleo_matcher::Utf32Str::new(haystack, &mut buf), &mut matcher)
}

/// The text a pull request is matched against: number, author, title,
/// branch and CI status.
pub open spec fn haystack_of(p: PrView) -> Seq<char> {
    "#"@ + decimal(p.number as nat) + " "@ + p.author + " "@ + p.title + " "@ + p.branch + " "@
        + ci_status_label(p.ci_status)
}

/// The score of pull request `i` for the query.
pub open spec fn score_at(prs: Seq<PullRequest>, q: Seq<char>, i: int) -> Option<u32> {
    fuzzy_score_of(q, haystack_of(prs[i]@))
}

/// `a` ranks before `b`: a higher score, or the same score and an earlier index.
pub open spec fn ranks_before(a: (usize, u32), b: (usize, u32)) -> bool {
    a.1 > b.1 || (a.1 == b.1 && a.0 < b.0)
}

/// The result of filtering: for an empty query every index in order; else
/// exactly the indices that match, best score first, ties in list order.
pub open spec fn filtered_ok(r: Seq<usize>, prs: Seq<PullRequest>, q: Seq<char>) -> bool {
    if q.len() == 0 {
        r == Seq::new(prs.len(), |i: int| i as usize)
    } else {
        &&& forall|k: int| 0 <= k < r.len() ==> (#[trigger] r[k]) < prs.len() && score_at(prs, q, r[k] as int) is Some
        &&& forall|i: int| 0 <= i < prs.len() && (#[trigger] score_at(prs, q, i)) is Some ==> r.contains(i as usize)
        &&& forall|k1: int, k2: int|
            0 <= k1 < k2 < r.len() ==> ranks_before(
                (r[k1], score_at(prs, q, r[k1] as int)->0),
                (r[k2], score_at(prs, q, r[k2] as int)->0),
            )
    }
}

/// Builds the text a pull request is matched against.
pub fn haystack(p: &PullRequest) -> (r: String)
    ensures
        r@ == haystack_of(p@),
{
    let mut s = String::from_str("#");
    push_decimal(&mut s, p.number);
    s.append(" ");
    s.append(p.author.as_str());
    s.append(" ");
    s.append(p.title.as_str());
    s.append(" ");
    s.append(p.branch.as_str());
    s.append(" ");
    s.append(p.ci_status.label());
    s
}

/// Filters pull requests with fuzzy matching: the indices of the matching
/// ones, best match first; an empty query keeps every index in order.
pub fn filter_prs(prs: &Vec<PullRequest>, query: &str) -> (r: Vec<usize>)
    ensures
        filtered_ok(r@, prs@, query@),
{
    let n = prs.len();
    if query.unicode_len() == 0 {
        let mut r: Vec<usize> = Vec::new();
        let mut i: usize = 0;
        while i < n
            invariant
                n == prs@.len(),
                i <= n,
                r@ == Seq::new(i as nat, |k: int| k as usize),
            decreases n - i,
        {
            r.push(i);
            i += 1;
            assert(r@ =~= Seq::new(i as nat, |k: int| k as usize));
        }
        return r;
    }
    let ghost q = query@;
    let mut ranked: Vec<(usize, u32)> = Vec::new();
    let mut i: usize = 0;
    while i < n
        invariant
            n == prs@.len(),
            q == query@,
            i <= n,
            forall|k: int| 0 <= k < ranked@.len() ==> (#[trigger] ranked@[k]).0 < i
                && score_at(prs@, q, ranked@[k].0 as int) == Some(ranked@[k].1),
            forall|j: int| 0 <= j < i && (#[trigger] score_at(prs@, q, j)) is Some ==> exists|k: int|
                0 <= k < ranked@.len() && ranked@[k].0 == j,
            forall|k1: int, k2: int|
                0 <= k1 < k2 < ranked@.len() ==> ranks_before(ranked@[k1], ranked@[k2]),
        decreases n - i,
    {
        let h = haystack(&prs[i]);
        match fuzzy_score(query, h.as_str()) {
            Some(s) => {
                let mut p: usize = 0;
                while p < ranked.len() && ranked[p].1 >= s
                    invariant
                        p <= ranked@.len(),
                        forall|k: int| 0 <= k < p ==> (#[trigger] ranked@[k]).1 >= s,
                    decreases ranked@.len() - p,
                {
                    p += 1;
                }
                let ghost before = ranked@;
                ranked.insert(p, (i, s));
                assert forall|k1: int, k2: int|
                    0 <= k1 < k2 < ranked@.len() implies ranks_before(ranked@[k1], ranked@[k2]) by {
                    if k2 < p {
                        assert(ranked@[k1] == before[k1]);
                        assert(ranked@[k2] == before[k2]);
                    } else if k2 == p {
                        assert(ranked@[k1] == before[k1]);
                    } else if k1 == p {
                        assert(ranked@[k2] == before[k2 - 1]);
                        if k2 - 1 >= p {
                            assert(!(before[p as int].1 >= s) || p == before.len());
                            if p < before.len() {
                                if k2 - 1 > p {
                                    assert(ranks_before(before[p as int], before[k2 - 1]));
                                }
                            }
                        }
                    } else if k1 < p {
                        assert(ranked@[k1] == before[k1]);
                        assert(ranked@[k2] == before[k2 - 1]);
                    } else {
                        assert(ranked@[k1] == before[k1 - 1]);
                        assert(ranked@[k2] == before[k2 - 1]);
                    }
                }
                assert forall|j: int| 0 <= j < i + 1 && (#[trigger] score_at(prs@, q, j)) is Some implies exists|k: int|
                    0 <= k < ranked@.len() && ranked@[k].0 == j by {
                    if j == i {
                        assert(ranked@[p as int].0 == j);
                    } else {
                        let k = choose|k: int| 0 <= k < before.len() && before[k].0 == j;
                        if k < p {
                            assert(ranked@[k].0 == j);
                        } else {
                            assert(ranked@[k + 1].0 == j);
                        }
                    }
                }
                assert forall|k: int| 0 <= k < ranked@.len() implies (#[trigger] ranked@[k]).0 < i + 1
                    && score_at(prs@, q, ranked@[k].0 as int) == Some(ranked@[k].1) by {
                    if k < p {
                        assert(ranked@[k] == before[k]);
                    } else if k > p {
                        assert(ranked@[k] == before[k - 1]);
                    }
                }
            },
            None => {},
        }
        i += 1;
    }
    let mut r: Vec<usize> = Vec::new();
    let mut k: usize = 0;
    while k < ranked.len()
        invariant
            k <= ranked@.len(),
            r@.len() == k,
            forall|j: int| 0 <= j < k ==> r@[j] == (#[trigger] ranked@[j]).0,
        decreases ranked@.len() - k,
    {
        r.push(ranked[k].0);
        k += 1;
    }
    assert forall|j: int| 0 <= j < n && (#[trigger] score_at(prs@, q, j)) is Some implies r@.contains(j as usize) by {
        let k = choose|k: int| 0 <= k < ranked@.len() && ranked@[k].0 == j;
        assert(r@[k] == j as usize);
    }
    assert forall|k1: int, k2: int|
        0 <= k1 < k2 < r@.len() implies ranks_before(
            (r@[k1], score_at(prs@, q, r@[k1] as int)->0),
            (r@[k2], score_at(prs@, q, r@[k2] as int)->0),
        ) by {
        assert(ranks_before(ranked@[k1], ranked@[k2]));
    }
    assert forall|j: int| 0 <= j < r@.len() implies (#[trigger] r@[j]) < prs@.len() && score_at(prs@, q, r@[j] as int) is Some by {
        assert(r@[j] == ranked@[j].0);
    }
    r
}

} // verus!
