//! CircleCI: recognising its URLs, finding the job number in them, and
//! mapping its status words onto workflow status and conclusion.

use vstd::prelude::*;
use vstd::string::*;
use crate::ci::{WorkflowStatus, WorkflowConclusion};
use crate::text::{
    chars_of, contains_str, find_in, has_infix, occurs_at, before_char, index_of_char, find_char,
    is_digit, parsed_u64, parse_u64, lowercase, lower_of, str_eq, string_of,
};

verus! {

/// The host name that marks a CircleCI URL.
pub open spec fn circleci_host() -> Seq<char> {
    "circleci.com"@
}

/// A URL is a CircleCI URL when it mentions the CircleCI host.
pub fn is_circleci_url(url: &str) -> (r: bool)
    ensures
        r == has_infix(url@, circleci_host()),
{
    contains_str(url, "circleci.com")
}

/// The backend is configured when a token is present.
pub fn is_circleci_configured(token: Option<&str>) -> (r: bool)
    ensures
        r == token is Some,
{
    token.is_some()
}

/// The project slug used by the CircleCI API.
pub fn get_project_slug(owner: &str, repo: &str) -> (r: String)
    ensures
        r@ == "github/"@ + owner@ + "/"@ + repo@,
{
    let mut s = String::from_str("github/");
    s.append(owner);
    s.append("/");
    s.append(repo);
    s
}

/// The first position where `needle` occurs in `hay` (meaningful when it occurs).
pub open spec fn first_occurrence(hay: Seq<char>, needle: Seq<char>) -> int {
    choose|i: int| occurs_at(hay, needle, i) && forall|j: int| 0 <= j < i ==> !occurs_at(hay, needle, j)
}

/// How many digits `s` starts with.
pub open spec fn digit_run(s: Seq<char>) -> nat
    decreases s.len(),
{
    if s.len() == 0 || !is_digit(s[0]) { 0 } else { 1 + digit_run(s.subrange(1, s.len() as int)) }
}

/// `s` starts with exactly `i` digits.
pub proof fn lemma_digit_run(s: Seq<char>, i: int)
    requires
        0 <= i <= s.len(),
        forall|j: int| 0 <= j < i ==> is_digit(#[trigger] s[j]),
        i == s.len() || !is_digit(s[i]),
    ensures
        digit_run(s) == i,
    decreases s.len(),
{
    if s.len() > 0 && is_digit(s[0]) {
        let t = s.subrange(1, s.len() as int);
        assert forall|j: int| 0 <= j < i - 1 implies is_digit(#[trigger] t[j]) by {
            assert(t[j] == s[j + 1]);
        }
        if i < s.len() {
            assert(t[i - 1] == s[i]);
        }
        lemma_digit_run(t, i - 1);
    }
}

/// The position of the last `/` of `s`, or -1.
pub open spec fn last_slash(s: Seq<char>) -> int
    decreases s.len(),
{
    if s.len() == 0 {
        -1
    } else if s.last() == '/' {
        s.len() - 1
    } else {
        last_slash(s.drop_last())
    }
}

proof fn lemma_last_slash_bound(s: Seq<char>)
    ensures
        -1 <= last_slash(s) < s.len(),
    decreases s.len(),
{
    if s.len() > 0 && s.last() != '/' {
        lemma_last_slash_bound(s.drop_last());
    }
}

/// The number of the last path segment that parses as a number, scanning
/// the `/`-separated segments from the end.
pub open spec fn last_numeric_segment(s: Seq<char>) -> Option<u64>
    decreases s.len(),
{
    let k = last_slash(s);
    let seg = s.subrange(k + 1, s.len() as int);
    if parsed_u64(seg) is Some {
        parsed_u64(seg)
    } else if k < 0 || k >= s.len() {
        None
    } else {
        last_numeric_segment(s.subrange(0, k))
    }
}

/// The job (build) number a CircleCI details URL names: the number after
/// `/jobs/`; none for a workflow-level URL under `/pipelines/`; else the
/// last numeric path segment. Query string and fragment are ignored.
pub open spec fn job_number_of(url: Seq<char>) -> Option<u64> {
    if !has_infix(url, circleci_host()) {
        None
    } else {
        let q = before_char(url, '?');
        let path = before_char(q, '#');
        let after = path.subrange(first_occurrence(path, "/jobs/"@) + 6, path.len() as int);
        if has_infix(path, "/jobs/"@) && digit_run(after) > 0 {
            parsed_u64(after.subrange(0, digit_run(after) as int))
        } else if has_infix(path, "/pipelines/"@) {
            None
        } else {
            last_numeric_segment(path)
        }
    }
}

fn find_last_slash(v: &Vec<char>, end: usize) -> (r: Option<usize>)
    requires
        end <= v@.len(),
    ensures
        match r {
            Some(k) => k as int == last_slash(v@.subrange(0, end as int)) && k < end,
            None => last_slash(v@.subrange(0, end as int)) == -1,
        },
{
    let mut e: usize = end;
    while e > 0
        invariant
            e <= end <= v@.len(),
            last_slash(v@.subrange(0, end as int)) == last_slash(v@.subrange(0, e as int)),
        decreases e,
    {
        assert(v@.subrange(0, e as int).drop_last() =~= v@.subrange(0, e - 1));
        if v[e - 1] == '/' {
            return Some(e - 1);
        }
        e -= 1;
    }
    None
}

/// Extracts the job number from a CircleCI details URL.
pub fn extract_job_number_from_url(url: &str) -> (r: Option<u64>)
    ensures
        r == job_number_of(url@),
{
    if !is_circleci_url(url) {
        return None;
    }
    let u = chars_of(url);
    let qi = find_char(&u, '?');
    let q = string_of(&u, 0, qi);
    let qv = chars_of(q.as_str());
    let hi = find_char(&qv, '#');
    let path_s = string_of(&qv, 0, hi);
    let path = chars_of(path_s.as_str());
    let ghost p = path@;
    let jobs = chars_of("/jobs/");
    proof {
        reveal_strlit("/jobs/");
    }
    assert(p == before_char(before_char(url@, '?'), '#'));
    match find_in(&path, &jobs) {
        Some(i) => {
            proof {
                assert(has_infix(p, "/jobs/"@));
                assert(first_occurrence(p, "/jobs/"@) == i) by {
                    let f = first_occurrence(p, "/jobs/"@);
                    assert(occurs_at(p, "/jobs/"@, i as int));
                    if f < i {
                    } else if f > i {
                    }
                }
            }
            let start = i + 6;
            let mut k: usize = start;
            while k < path.len() && '0' <= path[k] && path[k] <= '9'
                invariant
                    start <= k <= path@.len(),
                    start <= path@.len(),
                    forall|j: int| start <= j < k ==> is_digit(#[trigger] path@[j]),
                decreases path@.len() - k,
            {
                k += 1;
            }
            proof {
                let after = p.subrange(start as int, p.len() as int);
                assert forall|j: int| 0 <= j < k - start implies is_digit(#[trigger] after[j]) by {
                    assert(after[j] == p[start + j]);
                }
                if k < p.len() {
                    assert(after[k - start] == p[k as int]);
                }
                lemma_digit_run(after, k - start);
                assert(after.subrange(0, k - start) =~= p.subrange(start as int, k as int));
            }
            if k > start {
                return parse_u64(&path, start, k);
            }
        },
        None => {},
    }
    if contains_str(path_s.as_str(), "/pipelines/") {
        return None;
    }
    let mut end: usize = path.len();
    assert(p.subrange(0, end as int) =~= p);
    assert(job_number_of(url@) == last_numeric_segment(p));
    while true
        invariant
            end <= path@.len(),
            p == path@,
            job_number_of(url@) == last_numeric_segment(p),
            last_numeric_segment(p.subrange(0, end as int)) == last_numeric_segment(p),
        decreases end,
    {
        let ghost s = p.subrange(0, end as int);
        let slash = find_last_slash(&path, end);
        let seg_start: usize = match slash {
            Some(k) => k + 1,
            None => 0,
        };
        proof {
            lemma_last_slash_bound(s);
            assert(s.subrange(last_slash(s) + 1, s.len() as int) =~= p.subrange(seg_start as int, end as int));
        }
        let n = parse_u64(&path, seg_start, end);
        if n.is_some() {
            return n;
        }
        match slash {
            Some(k) => {
                assert(s.subrange(0, k as int) =~= p.subrange(0, k as int));
                end = k;
            },
            None => {
                return None;
            },
        }
    }
    None
}

/// The workflow status for a CircleCI status word (already lower-cased).
pub open spec fn circleci_status_of(l: Seq<char>) -> WorkflowStatus {
    if l == "running"@ {
        WorkflowStatus::InProgress
    } else if l == "success"@ || l == "failed"@ || l == "failing"@ || l == "canceled"@ || l
        == "cancelled"@ || l == "infrastructure_fail"@ || l == "timedout"@ {
        WorkflowStatus::Completed
    } else if l == "on_hold"@ || l == "blocked"@ {
        WorkflowStatus::Waiting
    } else if l == "queued"@ || l == "not_run"@ {
        WorkflowStatus::Queued
    } else {
        WorkflowStatus::Unknown
    }
}

/// The conclusion for a CircleCI status word (already lower-cased).
pub open spec fn circleci_conclusion_of(l: Seq<char>) -> Option<WorkflowConclusion> {
    if l == "success"@ {
        Some(WorkflowConclusion::Success)
    } else if l == "failed"@ || l == "failing"@ {
        Some(WorkflowConclusion::Failure)
    } else if l == "canceled"@ || l == "cancelled"@ {
        Some(WorkflowConclusion::Cancelled)
    } else if l == "timedout"@ {
        Some(WorkflowConclusion::TimedOut)
    } else if l == "infrastructure_fail"@ {
        Some(WorkflowConclusion::StartupFailure)
    } else if l == "not_run"@ {
        Some(WorkflowConclusion::Skipped)
    } else {
        None
    }
}

/// The workflow status for a CircleCI status word, in any case.
pub fn parse_circleci_status(status: &str) -> (r: WorkflowStatus)
    ensures
        r == circleci_status_of(lower_of(status@)),
{
    let l = lowercase(status);
    let s = l.as_str();
    if str_eq(s, "running") {
        WorkflowStatus::InProgress
    } else if str_eq(s, "success") || str_eq(s, "failed") || str_eq(s, "failing") || str_eq(
        s,
        "canceled",
    ) || str_eq(s, "cancelled") || str_eq(s, "infrastructure_fail") || str_eq(s, "timedout") {
        WorkflowStatus::Completed
    } else if str_eq(s, "on_hold") || str_eq(s, "blocked") {
        WorkflowStatus::Waiting
    } else if str_eq(s, "queued") || str_eq(s, "not_run") {
        WorkflowStatus::Queued
    } else {
        WorkflowStatus::Unknown
    }
}

/// The conclusion for a CircleCI status word, in any case.
pub fn parse_circleci_conclusion(status: &str) -> (r: Option<WorkflowConclusion>)
    ensures
        r == circleci_conclusion_of(lower_of(status@)),
{
    let l = lowercase(status);
    let s = l.as_str();
    if str_eq(s, "success") {
        Some(WorkflowConclusion::Success)
    } else if str_eq(s, "failed") || str_eq(s, "failing") {
        Some(WorkflowConclusion::Failure)
    } else if str_eq(s, "canceled") || str_eq(s, "cancelled") {
        Some(WorkflowConclusion::Cancelled)
    } else if str_eq(s, "timedout") {
        Some(WorkflowConclusion::TimedOut)
    } else if str_eq(s, "infrastructure_fail") {
        Some(WorkflowConclusion::StartupFailure)
    } else if str_eq(s, "not_run") {
        Some(WorkflowConclusion::Skipped)
    } else {
        None
    }
}

} // verus!
