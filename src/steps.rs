//! Reconstruction of a job's step tree from the raw step and action records
//! reported by the CI backend, and the default fold and selection state.

use vstd::prelude::*;
use vstd::string::*;
use crate::ci::{JobLogs, JobStep};
use crate::text::{
    lowercase, lower_of, push_decimal, push_signed_decimal, str_eq, trim, trimmed_of, decimal,
    signed_decimal, has_infix, occurs_at, chars_of, find_in,
};
use crate::circleci::digit_run;

verus! {

/// What became of fetching one action's output.
#[derive(Debug)]
pub enum OutputFetch {
    /// The action reported no output location.
    NoUrl,
    /// The output was fetched (possibly empty).
    Fetched(String),
    /// Fetching the output failed with this message.
    FetchFailed(String),
}

/// One action of a step: the run of that step in one execution container.
#[derive(Debug)]
pub struct ActionRecord {
    pub status: Option<String>,
    pub exit_code: Option<i32>,
    pub output: OutputFetch,
}

/// One step of a job as reported, with one action per container.
#[derive(Debug)]
pub struct StepRecord {
    pub name: String,
    pub actions: Vec<ActionRecord>,
}

/// The reported status, or `unknown` when none was reported.
pub open spec fn status_text(status: Option<String>) -> Seq<char> {
    match status {
        Some(s) => s@,
        None => "unknown"@,
    }
}

/// A step failed when its status is a failure status or it exited non-zero.
pub open spec fn failed_of(status: Seq<char>, exit_code: Option<i32>) -> bool {
    lower_of(status) == "failed"@ || lower_of(status) == "timedout"@ || (exit_code is Some
        && exit_code->0 != 0)
}

/// A line holds nothing but spaces, tabs and carriage returns.
pub open spec fn is_blank(line: Seq<char>) -> bool {
    forall|i: int| 0 <= i < line.len() ==> (#[trigger] line[i] == ' ' || line[i] == '\t' || line[i] == '\r')
}

/// The position of the last line break of `s`, or -1.
pub open spec fn last_break(s: Seq<char>) -> int
    decreases s.len(),
{
    if s.len() == 0 {
        -1
    } else if s.last() == '\n' {
        s.len() - 1
    } else {
        last_break(s.drop_last())
    }
}

/// The last line of `s` that is not blank (empty when there is none).
pub open spec fn last_nonblank_line(s: Seq<char>) -> Seq<char>
    decreases s.len(),
{
    let k = last_break(s);
    let line = s.subrange(k + 1, s.len() as int);
    if !is_blank(line) {
        line
    } else if k < 0 || k >= s.len() {
        Seq::empty()
    } else {
        last_nonblank_line(s.subrange(0, k))
    }
}

/// The digits `s` starts with include one other than zero.
pub open spec fn nonzero_lead(s: Seq<char>) -> bool {
    exists|i: int| 0 <= i < digit_run(s) && s[i] != '0'
}

/// Some occurrence of `phrase` in `line` is followed by digits that include
/// one other than zero.
pub open spec fn nonzero_after(line: Seq<char>, phrase: Seq<char>) -> bool {
    exists|i: int|
        #[trigger] occurs_at(line, phrase, i) && nonzero_lead(line.subrange(i + phrase.len(), line.len() as int))
}

/// A fetched output whose last non-blank line reports a non-zero exit
/// status ("exit status N" or "exited with code N").
pub open spec fn output_reports_failure(output: OutputFetch) -> bool {
    match output {
        OutputFetch::Fetched(s) => {
            let line = last_nonblank_line(s@);
            nonzero_after(line, "exit status "@) || nonzero_after(line, "exited with code "@)
        },
        _ => false,
    }
}

/// Whether an action failed: by its status or exit code, or by what its
/// output's last line reports.
pub open spec fn action_failed(a: ActionRecord) -> bool {
    failed_of(status_text(a.status), a.exit_code) || output_reports_failure(a.output)
}

/// The line that reports an exit code.
pub open spec fn exit_code_line(code: i32) -> Seq<char> {
    "Exit code: "@ + signed_decimal(code as int)
}

/// The output of an action before the fallback for an empty output.
pub open spec fn raw_output(a: ActionRecord, failed: bool) -> Seq<char> {
    match a.output {
        OutputFetch::Fetched(s) => if s@.len() > 0 {
            trimmed_of(s@)
        } else if a.exit_code is Some && a.exit_code->0 != 0 {
            exit_code_line(a.exit_code->0)
        } else {
            Seq::empty()
        },
        OutputFetch::FetchFailed(e) => "(Failed to fetch output: "@ + e@ + ")"@,
        OutputFetch::NoUrl => if a.exit_code is Some && (a.exit_code->0 != 0 || failed) {
            exit_code_line(a.exit_code->0)
        } else {
            Seq::empty()
        },
    }
}

/// The output shown for an action inside a container.
pub open spec fn container_output(a: ActionRecord) -> Seq<char> {
    let o = raw_output(a, action_failed(a));
    if o.len() == 0 { "(No output)"@ } else { o }
}

/// The output shown for a step of a job that ran in one container.
pub open spec fn flat_output(rec: StepRecord) -> Seq<char> {
    if rec.actions@.len() == 0 {
        "(No output)"@
    } else {
        container_output(rec.actions@[0])
    }
}

/// A step of a single-container job is the step's first action, as is.
pub open spec fn flat_step_ok(js: JobStep, rec: StepRecord) -> bool {
    &&& js.name@ == rec.name@
    &&& js.sub_steps is None
    &&& js.output@ == flat_output(rec)
    &&& if rec.actions@.len() == 0 {
        js.status@ == "unknown"@ && js.is_failed == failed_of("unknown"@, None)
    } else {
        js.status@ == status_text(rec.actions@[0].status) && js.is_failed == action_failed(
            rec.actions@[0],
        )
    }
}

/// A sub-step of container `c` is the step's action in that container.
pub open spec fn sub_step_ok(js: JobStep, rec: StepRecord, c: int) -> bool {
    &&& js.name@ == rec.name@
    &&& js.sub_steps is None
    &&& if c < rec.actions@.len() {
        let a = rec.actions@[c];
        js.status@ == status_text(a.status) && js.is_failed == action_failed(a) && js.output@
            == container_output(a)
    } else {
        js.status@ == "skipped"@ && !js.is_failed && js.output@ == "(No data for this container)"@
    }
}

/// The name of container `c`.
pub open spec fn container_name(c: nat) -> Seq<char> {
    "Container "@ + decimal(c)
}

/// Whether any step of a list is failed.
pub open spec fn any_failed(steps: Seq<JobStep>) -> bool {
    exists|i: int| 0 <= i < steps.len() && #[trigger] steps[i].is_failed
}

/// Container `c` groups the `c`-th action of every step, and fails when one of them fails.
pub open spec fn container_ok(js: JobStep, recs: Seq<StepRecord>, c: int) -> bool {
    &&& js.name@ == container_name(c as nat)
    &&& js.output@ == Seq::<char>::empty()
    &&& js.sub_steps is Some
    &&& js.sub_steps->0@.len() == recs.len()
    &&& forall|s: int| 0 <= s < recs.len() ==> sub_step_ok(#[trigger] js.sub_steps->0@[s], recs[s], c)
    &&& js.is_failed == any_failed(js.sub_steps->0@)
    &&& js.status@ == (if js.is_failed { "failed"@ } else { "success"@ })
}

/// The number of execution containers: the number of actions of the first step.
pub open spec fn container_count(recs: Seq<StepRecord>) -> nat {
    if recs.len() == 0 { 1 } else { recs[0].actions@.len() }
}

/// The step tree of a job: one container per action of the first step when
/// there are several, else the steps themselves.
pub open spec fn steps_ok(r: Seq<JobStep>, recs: Seq<StepRecord>) -> bool {
    if container_count(recs) > 1 {
        &&& r.len() == container_count(recs)
        &&& forall|c: int| 0 <= c < r.len() ==> container_ok(#[trigger] r[c], recs, c)
    } else {
        &&& r.len() == recs.len()
        &&& forall|s: int| 0 <= s < r.len() ==> flat_step_ok(#[trigger] r[s], recs[s])
    }
}

fn status_of(status: &Option<String>) -> (r: String)
    ensures
        r@ == status_text(*status),
{
    match status {
        Some(s) => s.clone(),
        None => String::from_str("unknown"),
    }
}

fn is_failed(status: &str, exit_code: Option<i32>) -> (r: bool)
    ensures
        r == failed_of(status@, exit_code),
{
    let l = lowercase(status);
    str_eq(l.as_str(), "failed") || str_eq(l.as_str(), "timedout") || match exit_code {
        Some(c) => c != 0,
        None => false,
    }
}

fn blank_range(v: &Vec<char>, from: usize, to: usize) -> (r: bool)
    requires
        from <= to <= v@.len(),
    ensures
        r == is_blank(v@.subrange(from as int, to as int)),
{
    let mut i: usize = from;
    while i < to
        invariant
            from <= i <= to <= v@.len(),
            forall|j: int| from <= j < i ==> (v@[j] == ' ' || v@[j] == '\t' || v@[j] == '\r'),
        decreases to - i,
    {
        let c = v[i];
        if !(c == ' ' || c == '\t' || c == '\r') {
            assert(v@.subrange(from as int, to as int)[i - from] == c);
            return false;
        }
        i += 1;
    }
    assert forall|j: int| 0 <= j < to - from implies (#[trigger] v@.subrange(from as int, to as int)[j] == ' '
        || v@.subrange(from as int, to as int)[j] == '\t' || v@.subrange(from as int, to as int)[j] == '\r') by {
        assert(v@.subrange(from as int, to as int)[j] == v@[from + j]);
    }
    true
}

fn find_last_break(v: &Vec<char>, end: usize) -> (r: Option<usize>)
    requires
        end <= v@.len(),
    ensures
        match r {
            Some(k) => k as int == last_break(v@.subrange(0, end as int)) && k < end,
            None => last_break(v@.subrange(0, end as int)) == -1,
        },
{
    let mut e: usize = end;
    while e > 0
        invariant
            e <= end <= v@.len(),
            last_break(v@.subrange(0, end as int)) == last_break(v@.subrange(0, e as int)),
        decreases e,
    {
        assert(v@.subrange(0, e as int).drop_last() =~= v@.subrange(0, e - 1));
        if v[e - 1] == '\n' {
            return Some(e - 1);
        }
        e -= 1;
    }
    None
}

proof fn lemma_last_break_bound(s: Seq<char>)
    ensures
        -1 <= last_break(s) < s.len(),
    decreases s.len(),
{
    if s.len() > 0 && s.last() != '\n' {
        lemma_last_break_bound(s.drop_last());
    }
}

fn last_line(v: &Vec<char>) -> (r: Vec<char>)
    ensures
        r@ == last_nonblank_line(v@),
{
    let mut end: usize = v.len();
    assert(v@.subrange(0, end as int) =~= v@);
    loop
        invariant
            end <= v@.len(),
            last_nonblank_line(v@.subrange(0, end as int)) == last_nonblank_line(v@),
        decreases end,
    {
        let ghost s = v@.subrange(0, end as int);
        let brk = find_last_break(v, end);
        let start: usize = match brk {
            Some(k) => k + 1,
            None => 0,
        };
        proof {
            lemma_last_break_bound(s);
            assert(s.subrange(last_break(s) + 1, s.len() as int) =~= v@.subrange(start as int, end as int));
        }
        if !blank_range(v, start, end) {
            let mut r: Vec<char> = Vec::new();
            let mut i: usize = start;
            while i < end
                invariant
                    start <= i <= end <= v@.len(),
                    r@ == v@.subrange(start as int, i as int),
                decreases end - i,
            {
                r.push(v[i]);
                i += 1;
                assert(r@ =~= v@.subrange(start as int, i as int));
            }
            return r;
        }
        match brk {
            Some(k) => {
                assert(s.subrange(0, k as int) =~= v@.subrange(0, k as int));
                end = k;
            },
            None => {
                return Vec::new();
            },
        }
    }
}

fn matches_at(line: &Vec<char>, p: &Vec<char>, i: usize) -> (r: bool)
    requires
        i + p@.len() <= line@.len(),
    ensures
        r == occurs_at(line@, p@, i as int),
{
    let m = p.len();
    let n = line.len();
    let mut k: usize = 0;
    while k < m
        invariant
            m == p@.len(),
            n == line@.len(),
            i + m <= line@.len(),
            k <= m,
            line@.subrange(i as int, i + k) == p@.subrange(0, k as int),
        decreases m - k,
    {
        if line[i + k] != p[k] {
            assert(line@.subrange(i as int, i + m)[k as int] != p@[k as int]);
            return false;
        }
        assert(line@.subrange(i as int, i + k + 1) =~= line@.subrange(i as int, i + k).push(line@[i + k]));
        assert(p@.subrange(0, k + 1) =~= p@.subrange(0, k as int).push(p@[k as int]));
        k += 1;
    }
    assert(p@.subrange(0, m as int) =~= p@);
    true
}

fn nonzero_lead_at(line: &Vec<char>, start: usize) -> (r: bool)
    requires
        start <= line@.len(),
    ensures
        r == nonzero_lead(line@.subrange(start as int, line@.len() as int)),
{
    let ghost after = line@.subrange(start as int, line@.len() as int);
    let mut k: usize = start;
    let mut nonzero = false;
    while k < line.len() && '0' <= line[k] && line[k] <= '9'
        invariant
            start <= k <= line@.len(),
            after == line@.subrange(start as int, line@.len() as int),
            forall|j: int| 0 <= j < k - start ==> crate::text::is_digit(#[trigger] after[j]),
            nonzero == exists|j: int| 0 <= j < k - start && after[j] != '0',
        decreases line@.len() - k,
    {
        assert(after[k - start] == line@[k as int]);
        if line[k] != '0' {
            nonzero = true;
        }
        k += 1;
    }
    proof {
        if k < line@.len() {
            assert(after[k - start] == line@[k as int]);
        }
        crate::circleci::lemma_digit_run(after, k - start);
    }
    nonzero
}

fn nonzero_digits_after(line: &Vec<char>, phrase: &str) -> (r: bool)
    ensures
        r == nonzero_after(line@, phrase@),
{
    let p = chars_of(phrase);
    let n = line.len();
    let m = p.len();
    if m > n {
        return false;
    }
    let mut i: usize = 0;
    while i <= n - m
        invariant
            n == line@.len(),
            m == p@.len(),
            p@ == phrase@,
            m <= n,
            i <= n - m + 1,
            forall|j: int| 0 <= j < i ==> !(#[trigger] occurs_at(line@, phrase@, j) && nonzero_lead(
                line@.subrange(j + m, n as int),
            )),
        decreases n - m + 1 - i,
    {
        if matches_at(line, &p, i) && nonzero_lead_at(line, i + m) {
            assert(occurs_at(line@, phrase@, i as int));
            return true;
        }
        if i == n - m {
            assert forall|j: int| #[trigger] occurs_at(line@, phrase@, j) implies !nonzero_lead(
                line@.subrange(j + m, n as int),
            ) by {
                assert(0 <= j <= n - m);
            }
            return false;
        }
        i += 1;
    }
    false
}

fn reports_failure(output: &OutputFetch) -> (r: bool)
    ensures
        r == output_reports_failure(*output),
{
    match output {
        OutputFetch::Fetched(s) => {
            let v = chars_of(s.as_str());
            let line = last_line(&v);
            nonzero_digits_after(&line, "exit status ") || nonzero_digits_after(&line, "exited with code ")
        },
        _ => false,
    }
}

fn exit_line(code: i32) -> (r: String)
    ensures
        r@ == exit_code_line(code),
{
    let mut s = String::from_str("Exit code: ");
    push_signed_decimal(&mut s, code as i64);
    s
}

fn output_of(a: &ActionRecord, failed: bool) -> (r: String)
    ensures
        r@ == raw_output(*a, failed),
{
    match &a.output {
        OutputFetch::Fetched(s) => {
            if s.unicode_len() > 0 {
                trim(s.as_str())
            } else {
                match a.exit_code {
                    Some(c) => if c != 0 { exit_line(c) } else { String::new() },
                    None => String::new(),
                }
            }
        },
        OutputFetch::FetchFailed(e) => {
            let mut s = String::from_str("(Failed to fetch output: ");
            s.append(e.as_str());
            s.append(")");
            s
        },
        OutputFetch::NoUrl => {
            match a.exit_code {
                Some(c) => if c != 0 || failed { exit_line(c) } else { String::new() },
                None => String::new(),
            }
        },
    }
}

fn sub_step(rec: &StepRecord, c: usize) -> (r: JobStep)
    ensures
        sub_step_ok(r, *rec, c as int),
{
    if c < rec.actions.len() {
        let a = &rec.actions[c];
        let status = status_of(&a.status);
        let failed = is_failed(status.as_str(), a.exit_code) || reports_failure(&a.output);
        let mut output = output_of(a, failed);
        if output.unicode_len() == 0 {
            output = String::from_str("(No output)");
        }
        JobStep { name: rec.name.clone(), status, output, is_failed: failed, sub_steps: None }
    } else {
        JobStep {
            name: rec.name.clone(),
            status: String::from_str("skipped"),
            output: String::from_str("(No data for this container)"),
            is_failed: false,
            sub_steps: None,
        }
    }
}

fn flat_step(rec: &StepRecord) -> (r: JobStep)
    ensures
        flat_step_ok(r, *rec),
{
    if rec.actions.len() == 0 {
        let status = String::from_str("unknown");
        let failed = is_failed(status.as_str(), None);
        JobStep {
            name: rec.name.clone(),
            status,
            output: String::from_str("(No output)"),
            is_failed: failed,
            sub_steps: None,
        }
    } else {
        let a = &rec.actions[0];
        let status = status_of(&a.status);
        let failed = is_failed(status.as_str(), a.exit_code) || reports_failure(&a.output);
        let mut output = output_of(a, failed);
        if output.unicode_len() == 0 {
            output = String::from_str("(No output)");
        }
        JobStep { name: rec.name.clone(), status, output, is_failed: failed, sub_steps: None }
    }
}

fn container(recs: &Vec<StepRecord>, c: usize) -> (r: JobStep)
    ensures
        container_ok(r, recs@, c as int),
{
    let mut subs: Vec<JobStep> = Vec::new();
    let mut failed = false;
    let mut s: usize = 0;
    while s < recs.len()
        invariant
            s <= recs@.len(),
            subs@.len() == s,
            forall|k: int| 0 <= k < s ==> sub_step_ok(#[trigger] subs@[k], recs@[k], c as int),
            failed == any_failed(subs@),
        decreases recs@.len() - s,
    {
        let js = sub_step(&recs[s], c);
        let f = js.is_failed;
        let ghost before = subs@;
        subs.push(js);
        if f {
            failed = true;
        }
        assert(failed == any_failed(subs@)) by {
            if any_failed(before) {
                let i = choose|i: int| 0 <= i < before.len() && #[trigger] before[i].is_failed;
                assert(subs@[i] == before[i]);
            }
            if any_failed(subs@) && !f {
                let i = choose|i: int| 0 <= i < subs@.len() && #[trigger] subs@[i].is_failed;
                assert(i < before.len());
                assert(before[i] == subs@[i]);
            }
            if f {
                assert(subs@[before.len() as int].is_failed);
            }
        }
        s += 1;
    }
    let mut name = String::from_str("Container ");
    push_decimal(&mut name, c as u64);
    let status = if failed { String::from_str("failed") } else { String::from_str("success") };
    JobStep { name, status, output: String::new(), is_failed: failed, sub_steps: Some(subs) }
}

/// Builds the step tree of a job. When the first step has more than one
/// action the job ran in parallel containers: the result then holds one
/// container per action, each with every step as a sub-step. Otherwise the
/// steps stay flat.
pub fn build_job_steps(recs: &Vec<StepRecord>) -> (r: Vec<JobStep>)
    ensures
        steps_ok(r@, recs@),
{
    let n: usize = if recs.len() == 0 { 1 } else { recs[0].actions.len() };
    let mut r: Vec<JobStep> = Vec::new();
    if n > 1 {
        let mut c: usize = 0;
        while c < n
            invariant
                n == container_count(recs@),
                c <= n,
                r@.len() == c,
                forall|k: int| 0 <= k < c ==> container_ok(#[trigger] r@[k], recs@, k),
            decreases n - c,
        {
            r.push(container(recs, c));
            c += 1;
        }
    } else {
        let mut s: usize = 0;
        while s < recs.len()
            invariant
                n == container_count(recs@),
                n <= 1,
                s <= recs@.len(),
                r@.len() == s,
                forall|k: int| 0 <= k < s ==> flat_step_ok(#[trigger] r@[k], recs@[k]),
            decreases recs@.len() - s,
        {
            r.push(flat_step(&recs[s]));
            s += 1;
        }
    }
    r
}

/// Reconstruction of a job whose first step has several actions yields one
/// container per action; each container holds every step as a sub-step and
/// is failed exactly when one of its sub-steps is failed.
pub proof fn lemma_parallel_shape(recs: Seq<StepRecord>, r: Seq<JobStep>)
    requires
        recs.len() > 0,
        recs[0].actions@.len() > 1,
        steps_ok(r, recs),
    ensures
        r.len() == recs[0].actions@.len(),
        forall|c: int|
            0 <= c < r.len() ==> {
                &&& (#[trigger] r[c]).sub_steps is Some
                &&& r[c].sub_steps->0@.len() == recs.len()
                &&& (r[c].is_failed <==> exists|s: int|
                    0 <= s < recs.len() && (#[trigger] r[c].sub_steps->0@[s]).is_failed)
            },
{
}

/// How many steps of a list are failed.
pub open spec fn count_failed(steps: Seq<JobStep>) -> nat
    decreases steps.len(),
{
    if steps.len() == 0 {
        0
    } else {
        count_failed(steps.drop_last()) + if steps.last().is_failed { 1nat } else { 0nat }
    }
}

proof fn lemma_count_failed_bound(steps: Seq<JobStep>)
    ensures
        count_failed(steps) <= steps.len(),
    decreases steps.len(),
{
    if steps.len() > 0 {
        lemma_count_failed_bound(steps.drop_last());
    }
}

/// The summary shown above a job's steps.
pub open spec fn steps_summary(total: nat, failed: nat) -> Seq<char> {
    decimal(total) + " steps ("@ + decimal((total - failed) as nat) + " passed, "@ + decimal(failed)
        + " failed)\n\nUse j/k to navigate, Enter to expand/collapse"@
}

fn failed_count(steps: &Vec<JobStep>) -> (r: usize)
    ensures
        r == count_failed(steps@),
{
    let mut n: usize = 0;
    let mut i: usize = 0;
    while i < steps.len()
        invariant
            i <= steps@.len(),
            n == count_failed(steps@.subrange(0, i as int)),
            n <= i,
        decreases steps@.len() - i,
    {
        assert(steps@.subrange(0, i + 1).drop_last() =~= steps@.subrange(0, i as int));
        if steps[i].is_failed {
            n += 1;
        }
        i += 1;
    }
    assert(steps@.subrange(0, steps@.len() as int) =~= steps@);
    n
}

/// Assembles the log of a job from its step records: the step tree, and a
/// plain-text summary of how many top-level entries passed and failed.
pub fn build_job_logs(job_id: u64, job_name: &str, recs: &Vec<StepRecord>) -> (r: JobLogs)
    ensures
        r.job_id == job_id,
        r.job_name@ == job_name@,
        match r.steps {
            Some(v) => {
                &&& v@.len() > 0
                &&& steps_ok(v@, recs@)
                &&& r.content@ == steps_summary(v@.len(), count_failed(v@))
            },
            None => {
                &&& forall|v: Seq<JobStep>| steps_ok(v, recs@) ==> v.len() == 0
                &&& r.content@ == "No step information available.\n\nPress 'o' to open it in your browser."@
            },
        },
{
    let steps = build_job_steps(recs);
    if steps.len() == 0 {
        JobLogs {
            job_id,
            job_name: String::from_str(job_name),
            content: String::from_str(
                "No step information available.\n\nPress 'o' to open it in your browser.",
            ),
            steps: None,
        }
    } else {
        let failed = failed_count(&steps);
        proof {
            lemma_count_failed_bound(steps@);
        }
        let total = steps.len();
        let mut content = String::new();
        push_decimal(&mut content, total as u64);
        content.append(" steps (");
        push_decimal(&mut content, (total - failed) as u64);
        content.append(" passed, ");
        push_decimal(&mut content, failed as u64);
        content.append(" failed)\n\nUse j/k to navigate, Enter to expand/collapse");
        JobLogs { job_id, job_name: String::from_str(job_name), content, steps: Some(steps) }
    }
}

/// `i` is the first failed entry of a list.
pub open spec fn is_first_failed(steps: Seq<JobStep>, i: int) -> bool {
    &&& 0 <= i < steps.len()
    &&& steps[i].is_failed
    &&& forall|j: int| 0 <= j < i ==> !(#[trigger] steps[j]).is_failed
}

/// Fold state and selection within a job's step tree.
#[derive(Debug)]
pub struct StepCursor {
    /// One flag per top-level entry: whether its sub-steps are shown.
    pub expanded: Vec<bool>,
    /// The selected top-level entry.
    pub selected: usize,
    /// The selected sub-step of that entry, if any.
    pub selected_sub: Option<usize>,
}

/// The sub-steps of an entry, empty when it has none.
pub open spec fn subs_of(js: JobStep) -> Seq<JobStep> {
    match js.sub_steps {
        Some(v) => v@,
        None => Seq::empty(),
    }
}

/// The fold state and selection right after reconstruction: failed entries
/// expanded, the first failed entry selected, and within it its first failed
/// sub-step; without failures, the first entry.
pub open spec fn default_cursor_ok(c: StepCursor, steps: Seq<JobStep>) -> bool {
    &&& c.expanded@.len() == steps.len()
    &&& forall|i: int| 0 <= i < steps.len() ==> c.expanded@[i] == (#[trigger] steps[i]).is_failed
    &&& if any_failed(steps) {
        &&& is_first_failed(steps, c.selected as int)
        &&& if any_failed(subs_of(steps[c.selected as int])) {
            c.selected_sub is Some && is_first_failed(
                subs_of(steps[c.selected as int]),
                c.selected_sub->0 as int,
            )
        } else {
            c.selected_sub is None
        }
    } else {
        c.selected == 0 && c.selected_sub is None
    }
}

fn first_failed(steps: &Vec<JobStep>) -> (r: Option<usize>)
    ensures
        match r {
            Some(i) => is_first_failed(steps@, i as int),
            None => !any_failed(steps@),
        },
{
    let mut i: usize = 0;
    while i < steps.len()
        invariant
            i <= steps@.len(),
            forall|j: int| 0 <= j < i ==> !(#[trigger] steps@[j]).is_failed,
        decreases steps@.len() - i,
    {
        if steps[i].is_failed {
            return Some(i);
        }
        i += 1;
    }
    None
}

impl StepCursor {
    /// The fold state and selection right after reconstruction.
    pub fn initial(steps: &Vec<JobStep>) -> (r: StepCursor)
        ensures
            default_cursor_ok(r, steps@),
    {
        let mut expanded: Vec<bool> = Vec::new();
        let mut i: usize = 0;
        while i < steps.len()
            invariant
                i <= steps@.len(),
                expanded@.len() == i,
                forall|j: int| 0 <= j < i ==> expanded@[j] == (#[trigger] steps@[j]).is_failed,
            decreases steps@.len() - i,
        {
            expanded.push(steps[i].is_failed);
            i += 1;
        }
        match first_failed(steps) {
            Some(i) => {
                let sub = match &steps[i].sub_steps {
                    Some(v) => first_failed(v),
                    None => None,
                };
                StepCursor { expanded, selected: i, selected_sub: sub }
            },
            None => StepCursor { expanded, selected: 0, selected_sub: None },
        }
    }
}

/// When exactly one top-level entry is failed, the default selection is that
/// entry (and no sub-step when it has none).
pub proof fn lemma_single_failure_selected(steps: Seq<JobStep>, c: StepCursor, i: int)
    requires
        default_cursor_ok(c, steps),
        0 <= i < steps.len(),
        forall|k: int| 0 <= k < steps.len() ==> ((#[trigger] steps[k]).is_failed <==> k == i),
    ensures
        c.selected == i,
        subs_of(steps[i]).len() == 0 ==> c.selected_sub is None,
{
    assert(steps[i].is_failed);
    assert(any_failed(steps));
    let s = c.selected as int;
    if s != i {
        assert(steps[s].is_failed);
    }
}

/// When exactly one entry is failed and exactly one of its sub-steps is
/// failed, the default selection is that sub-step.
pub proof fn lemma_single_sub_failure_selected(steps: Seq<JobStep>, c: StepCursor, i: int, j: int)
    requires
        default_cursor_ok(c, steps),
        0 <= i < steps.len(),
        forall|k: int| 0 <= k < steps.len() ==> ((#[trigger] steps[k]).is_failed <==> k == i),
        0 <= j < subs_of(steps[i]).len(),
        forall|k: int|
            0 <= k < subs_of(steps[i]).len() ==> ((#[trigger] subs_of(steps[i])[k]).is_failed <==> k
                == j),
    ensures
        c.selected == i,
        c.selected_sub == Some(j as usize),
{
    lemma_single_failure_selected(steps, c, i);
    let subs = subs_of(steps[i]);
    assert(subs[j].is_failed);
    assert(any_failed(subs));
    let t = c.selected_sub->0 as int;
    if t != j {
        assert(subs[t].is_failed);
    }
}

/// When nothing failed, the default selection is the first entry.
pub proof fn lemma_no_failure_first(steps: Seq<JobStep>, c: StepCursor)
    requires
        default_cursor_ok(c, steps),
        forall|k: int| 0 <= k < steps.len() ==> !(#[trigger] steps[k]).is_failed,
    ensures
        c.selected == 0,
        c.selected_sub is None,
{
}

/// A cursor fits a step tree: one fold flag per entry, the selection on an
/// entry, and a selected sub-step only inside an expanded entry.
pub open spec fn cursor_fits(c: StepCursor, steps: Seq<JobStep>) -> bool {
    &&& c.expanded@.len() == steps.len()
    &&& if steps.len() == 0 {
        c.selected == 0 && c.selected_sub is None
    } else {
        &&& c.selected < steps.len()
        &&& c.selected_sub is Some ==> c.expanded@[c.selected as int] && c.selected_sub->0 < subs_of(
            steps[c.selected as int],
        ).len()
    }
}

/// The position after moving down one row: into the sub-steps of an expanded
/// entry first, then on to the next entry; the last row stays.
pub open spec fn next_position(c: StepCursor, steps: Seq<JobStep>) -> (usize, Option<usize>) {
    let sel = c.selected as int;
    match c.selected_sub {
        Some(j) => if j + 1 < subs_of(steps[sel]).len() {
            (c.selected, Some((j + 1) as usize))
        } else if sel + 1 < steps.len() {
            ((sel + 1) as usize, None)
        } else {
            (c.selected, Some(j))
        },
        None => if sel < steps.len() && c.expanded@[sel] && subs_of(steps[sel]).len() > 0 {
            (c.selected, Some(0usize))
        } else if sel + 1 < steps.len() {
            ((sel + 1) as usize, None)
        } else {
            (c.selected, None)
        },
    }
}

/// The position after moving up one row: to the previous sub-step, to the
/// parent entry, or to the last sub-step of the previous entry when that one
/// is expanded and has sub-steps; the first row stays.
pub open spec fn previous_position(c: StepCursor, steps: Seq<JobStep>) -> (usize, Option<usize>) {
    let sel = c.selected as int;
    match c.selected_sub {
        Some(j) => if j > 0 {
            (c.selected, Some((j - 1) as usize))
        } else {
            (c.selected, None)
        },
        None => if sel > 0 {
            let p = sel - 1;
            if c.expanded@[p] && subs_of(steps[p]).len() > 0 {
                (p as usize, Some((subs_of(steps[p]).len() - 1) as usize))
            } else {
                (p as usize, None)
            }
        } else {
            (c.selected, None)
        },
    }
}

fn sub_count(js: &JobStep) -> (r: usize)
    ensures
        r == subs_of(*js).len(),
{
    match &js.sub_steps {
        Some(v) => v.len(),
        None => 0,
    }
}

impl StepCursor {
    /// Moves the selection down one row.
    pub fn next(&mut self, steps: &Vec<JobStep>)
        requires
            cursor_fits(*old(self), steps@),
        ensures
            cursor_fits(*final(self), steps@),
            final(self).expanded@ == old(self).expanded@,
            (final(self).selected, final(self).selected_sub) == next_position(*old(self), steps@),
    {
        let n = steps.len();
        if n == 0 {
            return;
        }
        let sel = self.selected;
        match self.selected_sub {
            Some(j) => {
                if j < sub_count(&steps[sel]) - 1 {
                    self.selected_sub = Some(j + 1);
                } else if sel + 1 < n {
                    self.selected = sel + 1;
                    self.selected_sub = None;
                }
            },
            None => {
                if self.expanded[sel] && sub_count(&steps[sel]) > 0 {
                    self.selected_sub = Some(0);
                } else if sel + 1 < n {
                    self.selected = sel + 1;
                }
            },
        }
    }

    /// Moves the selection up one row.
    pub fn previous(&mut self, steps: &Vec<JobStep>)
        requires
            cursor_fits(*old(self), steps@),
        ensures
            cursor_fits(*final(self), steps@),
            final(self).expanded@ == old(self).expanded@,
            (final(self).selected, final(self).selected_sub) == previous_position(*old(self), steps@),
    {
        let sel = self.selected;
        match self.selected_sub {
            Some(j) => {
                if j > 0 {
                    self.selected_sub = Some(j - 1);
                } else {
                    self.selected_sub = None;
                }
            },
            None => {
                if sel > 0 {
                    let p = sel - 1;
                    let k = sub_count(&steps[p]);
                    self.selected = p;
                    if self.expanded[p] && k > 0 {
                        self.selected_sub = Some(k - 1);
                    }
                }
            },
        }
    }

    /// Folds or unfolds the selected entry; folding an entry moves the
    /// selection from its sub-steps to the entry itself.
    pub fn toggle(&mut self, steps: &Vec<JobStep>)
        requires
            cursor_fits(*old(self), steps@),
        ensures
            cursor_fits(*final(self), steps@),
            final(self).selected == old(self).selected,
            steps@.len() == 0 ==> *final(self) == *old(self),
            steps@.len() > 0 ==> {
                let sel = old(self).selected as int;
                &&& final(self).expanded@ == old(self).expanded@.update(sel, !old(self).expanded@[sel])
                &&& final(self).selected_sub == if old(self).expanded@[sel] {
                    None
                } else {
                    old(self).selected_sub
                }
            },
    {
        if steps.len() == 0 {
            return;
        }
        let sel = self.selected;
        let was = self.expanded[sel];
        self.expanded.set(sel, !was);
        if was {
            self.selected_sub = None;
        }
    }
}

} // verus!
