//! The nested views: workflows of a pull request, the logs of one job, and
//! the preview of a pull request's conversation.

use vstd::prelude::*;
use vstd::string::*;
use crate::ci::{ActionsData, JobLogs, PreviewData, WorkflowJob, WorkflowRun, WorkflowStatus, is_failure_kind};
use crate::circleci::{is_circleci_url, extract_job_number_from_url, circleci_host, job_number_of};
use crate::engine::{App, Command, app_wf, current_list};
use crate::layout::{calculate_preview_positions, preview_total, scroll_down, scroll_up, scrolled_down, next_section, previous_section};
use crate::steps::{StepCursor, cursor_fits, subs_of, default_cursor_ok, next_position, previous_position};
use crate::text::{has_infix, contains_str};
use crate::ci::JobStep;

verus! {

/// How often the clock refreshes lists and polls CI, in milliseconds.
pub const POLL_INTERVAL_MS: u64 = 30000;

/// No popup or view is open and nothing loads.
pub open spec fn quiet(app: App) -> bool {
    !app.ci.show_workflows && !app.preview.show_preview && !app.show_help_popup && !app.show_checkout_popup
        && !app.show_error_popup && !app.show_labels_popup && !app.show_add_label_popup && !app.loading_my_prs
        && !app.loading_review_prs && !app.loading_labels_prs
}

/// The message shown when a CircleCI job is opened without a CircleCI token.
pub open spec fn circleci_setup_text() -> Seq<char> {
    "CircleCI logs need an API token.\n\nSet the CIRCLECI_TOKEN environment variable and restart, or press 'o' to open the job in your browser."@
}

/// The message shown for a job whose summary reports no findings.
pub open spec fn no_issues_text() -> Seq<char> {
    "No issues found."@
}

/// Job `(r, j)` exists.
pub open spec fn job_exists(runs: Seq<WorkflowRun>, r: int, j: int) -> bool {
    0 <= r < runs.len() && 0 <= j < runs[r].jobs@.len()
}

/// Job `(r, j)` concluded with a failure.
pub open spec fn job_failed(runs: Seq<WorkflowRun>, r: int, j: int) -> bool {
    job_exists(runs, r, j) && runs[r].jobs@[j].conclusion is Some && is_failure_kind(runs[r].jobs@[j].conclusion->0)
}

/// Job `(r, j)` comes before job `(r2, j2)` in run order.
pub open spec fn job_before(r: int, j: int, r2: int, j2: int) -> bool {
    r < r2 || (r == r2 && j < j2)
}

/// The first job, in run order, that satisfies `p`.
pub open spec fn first_job_where(runs: Seq<WorkflowRun>, r: int, j: int, p: spec_fn(int, int) -> bool) -> bool {
    job_exists(runs, r, j) && p(r, j) && forall|r2: int, j2: int|
        job_exists(runs, r2, j2) && job_before(r2, j2, r, j) ==> !p(r2, j2)
}

/// Job `(r, j)` exists and, when only failures count, failed.
pub open spec fn job_matches(runs: Seq<WorkflowRun>, r: int, j: int, failed_only: bool) -> bool {
    job_exists(runs, r, j) && (failed_only ==> job_failed(runs, r, j))
}

/// The selection is the first job, in run order, that satisfies `p`.
pub open spec fn selects_first(runs: Seq<WorkflowRun>, sel: Option<(usize, usize)>, p: spec_fn(int, int) -> bool) -> bool {
    match sel {
        Some((a, b)) => first_job_where(runs, a as int, b as int, p),
        None => false,
    }
}

/// The job selected when CI data arrives: the first failed job, else the first job.
pub open spec fn default_job_ok(runs: Seq<WorkflowRun>, sel: Option<(usize, usize)>) -> bool {
    if exists|r: int, j: int| job_matches(runs, r, j, true) {
        selects_first(runs, sel, |r: int, j: int| job_matches(runs, r, j, true))
    } else if exists|r: int, j: int| job_matches(runs, r, j, false) {
        selects_first(runs, sel, |r: int, j: int| job_matches(runs, r, j, false))
    } else {
        sel is None
    }
}

/// The job next to the selected one: the next job of its run, else the
/// first job of the next run (mirrored when moving back).
pub open spec fn neighbour_job(runs: Seq<WorkflowRun>, sel: Option<(usize, usize)>, forward: bool) -> Option<(usize, usize)> {
    match sel {
        Some((r, j)) => if !job_exists(runs, r as int, j as int) {
            None
        } else if forward {
            if j + 1 < runs[r as int].jobs@.len() {
                Some((r, (j + 1) as usize))
            } else if r + 1 < runs.len() && runs[r + 1].jobs@.len() > 0 {
                Some(((r + 1) as usize, 0usize))
            } else {
                None
            }
        } else {
            if j > 0 {
                Some((r, (j - 1) as usize))
            } else if r > 0 && runs[r - 1].jobs@.len() > 0 {
                Some(((r - 1) as usize, (runs[r - 1].jobs@.len() - 1) as usize))
            } else {
                None
            }
        },
        None => None,
    }
}

/// Some job is not completed yet.
pub open spec fn any_running(runs: Seq<WorkflowRun>) -> bool {
    exists|r: int, j: int| job_exists(runs, r, j) && runs[r].jobs@[j].status != WorkflowStatus::Completed
}

fn find_job(runs: &Vec<WorkflowRun>, failed_only: bool) -> (r: Option<(usize, usize)>)
    ensures
        match r {
            Some((a, b)) => first_job_where(runs@, a as int, b as int, |r: int, j: int| job_matches(runs@, r, j, failed_only)),
            None => forall|a: int, b: int| !job_matches(runs@, a, b, failed_only),
        },
{
    let mut a: usize = 0;
    while a < runs.len()
        invariant
            a <= runs@.len(),
            forall|r2: int, j2: int| r2 < a ==> !#[trigger] job_matches(runs@, r2, j2, failed_only),
        decreases runs@.len() - a,
    {
        let jobs = &runs[a].jobs;
        let mut b: usize = 0;
        while b < jobs.len()
            invariant
                a < runs@.len(),
                jobs@ == runs@[a as int].jobs@,
                b <= jobs@.len(),
                forall|r2: int, j2: int| r2 < a ==> !#[trigger] job_matches(runs@, r2, j2, failed_only),
                forall|j2: int| 0 <= j2 < b ==> !#[trigger] job_matches(runs@, a as int, j2, failed_only),
            decreases jobs@.len() - b,
        {
            let ok = if failed_only {
                match jobs[b].conclusion {
                    Some(c) => c.is_failure(),
                    None => false,
                }
            } else {
                true
            };
            if ok {
                assert(job_matches(runs@, a as int, b as int, failed_only));
                assert forall|r2: int, j2: int| job_exists(runs@, r2, j2) && job_before(r2, j2, a as int, b as int)
                    implies !job_matches(runs@, r2, j2, failed_only) by {
                    if r2 == a {
                        assert(!job_matches(runs@, a as int, j2, failed_only));
                    }
                }
                return Some((a, b));
            }
            b += 1;
        }
        assert forall|r2: int, j2: int| r2 < a + 1 implies !#[trigger] job_matches(runs@, r2, j2, failed_only) by {
            if r2 == a && job_matches(runs@, r2, j2, failed_only) {
                assert(!job_matches(runs@, a as int, j2, failed_only));
            }
        }
        a += 1;
    }
    assert forall|r2: int, j2: int| !job_matches(runs@, r2, j2, failed_only) by {
        if r2 < a {
        }
    }
    None
}

fn any_running_job(runs: &Vec<WorkflowRun>) -> (r: bool)
    ensures
        r == any_running(runs@),
{
    let mut a: usize = 0;
    while a < runs.len()
        invariant
            a <= runs@.len(),
            forall|r2: int, j2: int| job_exists(runs@, r2, j2) && r2 < a ==> runs@[r2].jobs@[j2].status == WorkflowStatus::Completed,
        decreases runs@.len() - a,
    {
        let jobs = &runs[a].jobs;
        let mut b: usize = 0;
        while b < jobs.len()
            invariant
                a < runs@.len(),
                jobs@ == runs@[a as int].jobs@,
                b <= jobs@.len(),
                forall|r2: int, j2: int| job_exists(runs@, r2, j2) && r2 < a ==> runs@[r2].jobs@[j2].status == WorkflowStatus::Completed,
                forall|j2: int| 0 <= j2 < b ==> runs@[a as int].jobs@[j2].status == WorkflowStatus::Completed,
            decreases jobs@.len() - b,
        {
            if jobs[b].status != WorkflowStatus::Completed {
                assert(job_exists(runs@, a as int, b as int));
                return true;
            }
            b += 1;
        }
        a += 1;
    }
    false
}

fn neighbour(runs: &Vec<WorkflowRun>, sel: Option<(usize, usize)>, forward: bool) -> (r: Option<(usize, usize)>)
    ensures
        r == neighbour_job(runs@, sel, forward),
{
    match sel {
        Some((r, j)) => {
            if r >= runs.len() || j >= runs[r].jobs.len() {
                    None
                } else if forward {
                    if j + 1 < runs[r].jobs.len() {
                        Some((r, j + 1))
                    } else if r + 1 < runs.len() && runs[r + 1].jobs.len() > 0 {
                        Some((r + 1, 0))
                    } else {
                        None
                    }
                } else {
                    if j > 0 {
                        Some((r, j - 1))
                    } else if r > 0 && runs[r - 1].jobs.len() > 0 {
                        Some((r - 1, runs[r - 1].jobs.len() - 1))
                    } else {
                        None
                    }
                }
        },
        None => None,
    }
}

impl App {
    /// Opens the workflows view of the selected pull request. With its head
    /// commit known, its CI data is fetched and polling starts; otherwise the
    /// pull request is marked pending and its list refetched, the CI fetch
    /// following when the refetch resolves it.
    pub fn open_workflows(&mut self) -> (cmd: Option<Command>)
        requires
            app_wf(*old(self)),
        ensures
            app_wf(*final(self)),
            open_workflows_done(*old(self), *final(self), cmd),
    {
        let sel = match self.selected_pr() {
            Some(p) => Some((p.number, p.repo_owner.clone(), p.repo_name.clone(), crate::models::copy_opt(&p.head_sha))),
            None => None,
        };
        match sel {
            Some((n, owner, repo, head)) => {
                self.preview.show_preview = false;
                self.ci.show_workflows = true;
                self.ci.workflows_pr = Some(n);
                self.ci.actions_data = None;
                self.ci.selected_job = None;
                self.ci.show_job_logs = false;
                self.ci.actions_loading = true;
                self.ci.owner = owner.clone();
                self.ci.repo = repo.clone();
                self.ci.head_sha = crate::models::copy_opt(&head);
                match head {
                    Some(sha) => {
                        self.ci.pending_head_pr = None;
                        self.ci.actions_poll_enabled = true;
                        Some(Command::StartActionsFetch { owner, repo, pr_number: n, head_sha: sha })
                    },
                    None => {
                        self.ci.pending_head_pr = Some(n);
                        Some(self.refresh_command())
                    },
                }
            },
            None => None,
        }
    }

    /// Applies fetched CI data. Data for the pull request of the workflows
    /// view is kept, polling stays on while a job runs, and the first failed
    /// job (else the first job) is selected; a stale result is dropped.
    pub fn actions_fetched(&mut self, pr_number: u64, result: Result<ActionsData, String>)
        requires
            app_wf(*old(self)),
        ensures
            app_wf(*final(self)),
            actions_fetched_done(*old(self), *final(self), pr_number, result),
    {
        if self.ci.workflows_pr != Some(pr_number) {
            return;
        }
        self.ci.actions_loading = false;
        match result {
            Ok(data) => {
                let running = any_running_job(&data.workflow_runs);
                let failed = find_job(&data.workflow_runs, true);
                let sel = match failed {
                    Some(s) => Some(s),
                    None => find_job(&data.workflow_runs, false),
                };
                self.ci.actions_poll_enabled = running;
                self.ci.selected_job = sel;
                self.ci.actions_data = Some(data);
            },
            Err(e) => {
                self.error = Some(e);
                self.show_error_popup = true;
            },
        }
    }

    /// Moves the job selection within its run, or on to the first (last)
    /// job of the next (previous) run.
    pub fn move_job(&mut self, forward: bool)
        requires
            app_wf(*old(self)),
        ensures
            app_wf(*final(self)),
            move_job_done(*old(self), *final(self), forward),
    {
        let next = match &self.ci.actions_data {
            Some(d) => neighbour(&d.workflow_runs, self.ci.selected_job, forward),
            None => None,
        };
        match next {
            Some(s) => {
                self.ci.selected_job = Some(s);
            },
            None => {},
        }
    }

    /// Refetches the CI data of the workflows view while polling is on and
    /// no fetch is in flight.
    pub fn poll_actions(&mut self) -> (cmd: Option<Command>)
        requires
            app_wf(*old(self)),
        ensures
            app_wf(*final(self)),
            poll_actions_done(*old(self), *final(self), cmd),
    {
        if !self.ci.show_workflows || !self.ci.actions_poll_enabled || self.ci.actions_loading {
            return None;
        }
        match (self.ci.workflows_pr, &self.ci.head_sha) {
            (Some(n), Some(sha)) => {
                let c = Command::StartActionsFetch {
                    owner: self.ci.owner.clone(),
                    repo: self.ci.repo.clone(),
                    pr_number: n,
                    head_sha: sha.clone(),
                };
                self.ci.actions_loading = true;
                Some(c)
            },
            _ => None,
        }
    }

    /// What the clock asks for, given the time since the last list refresh
    /// and since the last CI poll: a CI poll every 30 s while the workflows
    /// view polls, else a list refresh every 30 s while no popup or view is
    /// open and nothing loads.
    pub fn schedule(&self, since_refresh_ms: u64, since_poll_ms: u64) -> (r: Option<crate::engine::Message>)
        ensures
            (since_poll_ms >= POLL_INTERVAL_MS && self.ci.show_workflows && self.ci.actions_poll_enabled
                && !self.ci.actions_loading) ==> r == Some(crate::engine::Message::PollActions),
            !(since_poll_ms >= POLL_INTERVAL_MS && self.ci.show_workflows && self.ci.actions_poll_enabled
                && !self.ci.actions_loading) ==> (r is Some <==> (since_refresh_ms >= POLL_INTERVAL_MS
                && quiet(*self))) && (r is Some ==> r == Some(crate::engine::Message::Refresh)),
    {
        if since_poll_ms >= POLL_INTERVAL_MS && self.ci.show_workflows && self.ci.actions_poll_enabled
            && !self.ci.actions_loading {
            return Some(crate::engine::Message::PollActions);
        }
        let quiet = !self.ci.show_workflows && !self.preview.show_preview && !self.show_help_popup
            && !self.show_checkout_popup && !self.show_error_popup && !self.show_labels_popup
            && !self.show_add_label_popup && !self.loading_my_prs && !self.loading_review_prs
            && !self.loading_labels_prs;
        if since_refresh_ms >= POLL_INTERVAL_MS && quiet {
            Some(crate::engine::Message::Refresh)
        } else {
            None
        }
    }

    /// Closes the workflows view and its job logs; polling stops.
    pub fn close_workflows(&mut self)
        requires
            app_wf(*old(self)),
        ensures
            app_wf(*final(self)),
            close_workflows_done(*old(self), *final(self)),
    {
        self.ci.show_workflows = false;
        self.ci.show_job_logs = false;
        self.ci.actions_poll_enabled = false;
    }
}

/// What opening the logs of a job does, by priority: show its annotations;
/// report that its summary found nothing; show its summary and text; or
/// fetch the log, from CircleCI when the details URL is a CircleCI job URL
/// and a token is configured (without a token, show how to configure one),
/// else from the default backend.
pub enum LogsPlan {
    Annotations,
    Text(Seq<char>),
    FetchCircleci(u64),
    FetchDefault,
}

/// The summary and text of a job, joined by a blank line.
pub open spec fn job_text(summary: Option<String>, text: Option<String>) -> Seq<char> {
    match (summary, text) {
        (Some(s), Some(t)) => s@ + "\n\n"@ + t@,
        (Some(s), None) => s@,
        (None, Some(t)) => t@,
        (None, None) => Seq::empty(),
    }
}

/// The plan for opening the logs of a job.
pub open spec fn logs_plan(job: WorkflowJob, circleci_configured: bool) -> LogsPlan {
    if job.annotations@.len() > 0 {
        LogsPlan::Annotations
    } else if job.summary is Some && has_infix(job.summary->0@, "No issues found"@) {
        LogsPlan::Text(no_issues_text())
    } else if job_text(job.summary, job.text).len() > 0 {
        LogsPlan::Text(job_text(job.summary, job.text))
    } else if job.details_url is Some && has_infix(job.details_url->0@, circleci_host()) {
        if !circleci_configured {
            LogsPlan::Text(circleci_setup_text())
        } else if job_number_of(job.details_url->0@) is Some {
            LogsPlan::FetchCircleci(job_number_of(job.details_url->0@)->0)
        } else {
            LogsPlan::FetchDefault
        }
    } else {
        LogsPlan::FetchDefault
    }
}

/// The job under the selection of the workflows view, if any.
pub open spec fn selected_job_of(ci: crate::engine::CiState) -> Option<WorkflowJob> {
    match (ci.actions_data, ci.selected_job) {
        (Some(d), Some((r, j))) => if job_exists(d.workflow_runs@, r as int, j as int) {
            Some(d.workflow_runs@[r as int].jobs@[j as int])
        } else {
            None
        },
        _ => None,
    }
}

fn joined_text(summary: &Option<String>, text: &Option<String>) -> (r: String)
    ensures
        r@ == job_text(*summary, *text),
{
    match (summary, text) {
        (Some(s), Some(t)) => {
            let mut r = s.clone();
            r.append("\n\n");
            r.append(t.as_str());
            r
        },
        (Some(s), None) => s.clone(),
        (None, Some(t)) => t.clone(),
        (None, None) => String::new(),
    }
}

/// The plan for opening a job's logs, as computed.
pub enum LogsStep {
    Annotations,
    Text(String),
    FetchCircleci(u64),
    FetchDefault,
}

/// A computed plan as plain values.
pub open spec fn step_view(p: LogsStep) -> LogsPlan {
    match p {
        LogsStep::Annotations => LogsPlan::Annotations,
        LogsStep::Text(t) => LogsPlan::Text(t@),
        LogsStep::FetchCircleci(n) => LogsPlan::FetchCircleci(n),
        LogsStep::FetchDefault => LogsPlan::FetchDefault,
    }
}

/// Decides what opening a job's logs does.
#[verifier::rlimit(100)]
pub fn plan_job_logs(job: &WorkflowJob, circleci_configured: bool) -> (r: LogsStep)
    ensures
        step_view(r) == logs_plan(*job, circleci_configured),
{
    if job.annotations.len() > 0 {
        return LogsStep::Annotations;
    }
    let no_issues = match &job.summary {
        Some(s) => contains_str(s.as_str(), "No issues found"),
        None => false,
    };
    if no_issues {
        return LogsStep::Text(String::from_str("No issues found."));
    }
    let joined = joined_text(&job.summary, &job.text);
    if joined.unicode_len() > 0 {
        return LogsStep::Text(joined);
    }
    match &job.details_url {
        Some(u) => {
            if is_circleci_url(u.as_str()) {
                if !circleci_configured {
                    return LogsStep::Text(String::from_str(
                        "CircleCI logs need an API token.\n\nSet the CIRCLECI_TOKEN environment variable and restart, or press 'o' to open the job in your browser.",
                    ));
                }
                match extract_job_number_from_url(u.as_str()) {
                    Some(n) => LogsStep::FetchCircleci(n),
                    None => LogsStep::FetchDefault,
                }
            } else {
                LogsStep::FetchDefault
            }
        },
        None => LogsStep::FetchDefault,
    }
}

impl App {
    /// Opens the logs of the selected job, following its plan.
    pub fn open_job_logs(&mut self) -> (cmd: Option<Command>)
        requires
            app_wf(*old(self)),
        ensures
            app_wf(*final(self)),
            open_job_logs_done(*old(self), *final(self), cmd),
    {
        if !self.ci.show_workflows {
            return None;
        }
        let (plan, id, name) = match (&self.ci.actions_data, self.ci.selected_job) {
            (Some(d), Some((r, j))) => {
                if r < d.workflow_runs.len() && j < d.workflow_runs[r].jobs.len() {
                    let job = &d.workflow_runs[r].jobs[j];
                    (plan_job_logs(job, self.circleci_configured), job.id, job.name.clone())
                } else {
                    return None;
                }
            },
            _ => {
                return None;
            },
        };
        self.ci.show_job_logs = true;
        self.ci.job_logs = None;
        self.ci.step_cursor = None;
        self.ci.job_logs_message = None;
        self.ci.show_annotations = false;
        match plan {
            LogsStep::Annotations => {
                self.ci.show_annotations = true;
                None
            },
            LogsStep::Text(t) => {
                self.ci.job_logs_message = Some(t);
                None
            },
            LogsStep::FetchCircleci(n) => {
                self.ci.job_logs_loading = true;
                Some(Command::StartCircleciJobLogsFetch {
                    owner: self.ci.owner.clone(),
                    repo: self.ci.repo.clone(),
                    job_number: n,
                    job_name: name,
                })
            },
            LogsStep::FetchDefault => {
                self.ci.job_logs_loading = true;
                Some(Command::StartJobLogsFetch {
                    owner: self.ci.owner.clone(),
                    repo: self.ci.repo.clone(),
                    job_id: id,
                    job_name: name,
                })
            },
        }
    }

    /// Applies fetched job logs when they belong to the job being shown; the
    /// step tree then starts with its default fold and selection.
    pub fn job_logs_fetched(&mut self, job_id: u64, result: Result<JobLogs, String>)
        requires
            app_wf(*old(self)),
        ensures
            app_wf(*final(self)),
            job_logs_fetched_done(*old(self), *final(self), job_id, result),
    {
        let current = match (&self.ci.actions_data, self.ci.selected_job) {
            (Some(d), Some((r, j))) => {
                if r < d.workflow_runs.len() && j < d.workflow_runs[r].jobs.len() {
                    d.workflow_runs[r].jobs[j].id == job_id
                } else {
                    false
                }
            },
            _ => false,
        };
        if !self.ci.show_job_logs || !current {
            return;
        }
        self.ci.job_logs_loading = false;
        match result {
            Ok(logs) => {
                self.ci.step_cursor = match &logs.steps {
                    Some(steps) => Some(StepCursor::initial(steps)),
                    None => None,
                };
                self.ci.job_logs = Some(logs);
            },
            Err(e) => {
                self.ci.job_logs_message = Some(e);
            },
        }
    }

    /// Closes the job-logs sub-view.
    pub fn close_job_logs(&mut self)
        requires
            app_wf(*old(self)),
        ensures
            app_wf(*final(self)),
            close_job_logs_done(*old(self), *final(self)),
    {
        self.ci.show_job_logs = false;
        self.ci.show_annotations = false;
        self.ci.job_logs = None;
        self.ci.job_logs_message = None;
        self.ci.step_cursor = None;
    }
}

fn sub_len(js: &JobStep) -> (r: usize)
    ensures
        r == subs_of(*js).len(),
{
    match &js.sub_steps {
        Some(v) => v.len(),
        None => 0,
    }
}

/// Whether a cursor fits a step tree.
pub fn cursor_fits_steps(c: &StepCursor, steps: &Vec<JobStep>) -> (r: bool)
    ensures
        r == cursor_fits(*c, steps@),
{
    if c.expanded.len() != steps.len() {
        return false;
    }
    if steps.len() == 0 {
        return c.selected == 0 && c.selected_sub.is_none();
    }
    if c.selected >= steps.len() {
        return false;
    }
    match c.selected_sub {
        Some(j) => c.expanded[c.selected] && j < sub_len(&steps[c.selected]),
        None => true,
    }
}

/// The output of the selected row of a step tree: a sub-step's output, or
/// the entry's own.
pub open spec fn selected_output(c: StepCursor, steps: Seq<JobStep>) -> Seq<char> {
    match c.selected_sub {
        Some(j) => subs_of(steps[c.selected as int])[j as int].output@,
        None => steps[c.selected as int].output@,
    }
}

/// Which way a step-tree command moves.
pub enum StepMove {
    Next,
    Previous,
    Toggle,
}

/// `c2` is where `c` goes on a step-tree command: the next or previous row
/// with the fold state kept, or the selected entry folded or unfolded.
pub open spec fn step_moved(c: StepCursor, c2: StepCursor, steps: Seq<JobStep>, m: StepMove) -> bool {
    &&& cursor_fits(c2, steps)
    &&& match m {
        StepMove::Next => c2.expanded@ == c.expanded@ && (c2.selected, c2.selected_sub) == next_position(c, steps),
        StepMove::Previous => c2.expanded@ == c.expanded@ && (c2.selected, c2.selected_sub) == previous_position(c, steps),
        StepMove::Toggle => c2.selected == c.selected && (steps.len() == 0 ==> c2 == c) && (steps.len() > 0 ==> {
            &&& c2.expanded@ == c.expanded@.update(c.selected as int, !c.expanded@[c.selected as int])
            &&& c2.selected_sub == if c.expanded@[c.selected as int] { None } else { c.selected_sub }
        }),
    }
}

fn moved_cursor(c: StepCursor, steps: &Vec<JobStep>, m: StepMove) -> (r: StepCursor)
    requires
        cursor_fits(c, steps@),
    ensures
        step_moved(c, r, steps@, m),
{
    let mut c = c;
    match m {
        StepMove::Next => c.next(steps),
        StepMove::Previous => c.previous(steps),
        StepMove::Toggle => c.toggle(steps),
    }
    c
}

impl App {
    /// Moves or folds within the step tree of the shown job logs.
    #[verifier::rlimit(100)]
    pub fn move_step(&mut self, m: StepMove)
        requires
            app_wf(*old(self)),
        ensures
            app_wf(*final(self)),
            move_step_done(*old(self), *final(self), m),
    {
        let fits = match (&self.ci.job_logs, &self.ci.step_cursor) {
            (Some(logs), Some(c)) => match &logs.steps {
                Some(steps) => cursor_fits_steps(c, steps),
                None => false,
            },
            _ => false,
        };
        if !fits {
            return;
        }
        let taken = self.ci.step_cursor.take();
        match (taken, &self.ci.job_logs) {
            (Some(c), Some(logs)) => match &logs.steps {
                Some(steps) => {
                    self.ci.step_cursor = Some(moved_cursor(c, steps, m));
                },
                None => {},
            },
            _ => {},
        }
    }

    /// Asks for the output of the selected step to be opened in the editor.
    pub fn open_step_in_editor(&self) -> (cmd: Option<Command>)
        ensures
            open_step_in_editor_done(*self, cmd),
    {
        match (&self.ci.job_logs, &self.ci.step_cursor) {
            (Some(logs), Some(c)) => match &logs.steps {
                Some(steps) => {
                    if !cursor_fits_steps(c, steps) || steps.len() == 0 {
                        return None;
                    }
                    let step = &steps[c.selected];
                    let content = match (c.selected_sub, &step.sub_steps) {
                        (Some(j), Some(subs)) => subs[j].output.clone(),
                        _ => step.output.clone(),
                    };
                    Some(Command::OpenInEditor { content, filename: String::from_str("step-output.log") })
                },
                None => None,
            },
            _ => None,
        }
    }

    /// Opens the preview of the selected pull request and fetches it; the
    /// workflows view closes.
    pub fn open_preview(&mut self) -> (cmd: Option<Command>)
        requires
            app_wf(*old(self)),
        ensures
            app_wf(*final(self)),
            open_preview_done(*old(self), *final(self), cmd),
    {
        let sel = match self.selected_pr() {
            Some(p) => Some((p.number, p.repo_owner.clone(), p.repo_name.clone())),
            None => None,
        };
        match sel {
            Some((n, owner, repo)) => {
                self.ci.show_workflows = false;
                self.ci.show_job_logs = false;
                self.ci.actions_poll_enabled = false;
                self.preview.show_preview = true;
                self.preview.preview_pr = Some(n);
                self.preview.preview_data = None;
                self.preview.preview_loading = true;
                self.preview.preview_scroll = 0;
                Some(Command::StartPreviewFetch { owner, repo, pr_number: n })
            },
            None => None,
        }
    }

    /// Applies a fetched preview when it belongs to the pull request shown,
    /// computing the first line of each comment once.
    pub fn preview_fetched(&mut self, pr_number: u64, result: Result<PreviewData, String>, body_lines: Vec<usize>)
        requires
            app_wf(*old(self)),
        ensures
            app_wf(*final(self)),
            preview_fetched_done(*old(self), *final(self), pr_number, result, body_lines),
    {
        if self.preview.preview_pr != Some(pr_number) {
            return;
        }
        self.preview.preview_loading = false;
        match result {
            Ok(data) => {
                if total_fits(&body_lines) {
                    let (positions, total) = calculate_preview_positions(&body_lines);
                    self.preview.preview_positions = positions;
                    self.preview.preview_total_lines = total;
                } else {
                    self.preview.preview_positions = Vec::new();
                    self.preview.preview_total_lines = usize::MAX;
                }
                self.preview.preview_data = Some(data);
            },
            Err(e) => {
                self.error = Some(e);
                self.show_error_popup = true;
            },
        }
    }

    /// Scrolls the preview down by `step` lines, never past `max(0, total - height)`.
    pub fn preview_down(&mut self, step: usize)
        requires
            app_wf(*old(self)),
        ensures
            app_wf(*final(self)),
            preview_down_done(*old(self), *final(self), step),
    {
        self.preview.preview_scroll = scroll_down(
            self.preview.preview_scroll,
            step,
            self.preview.preview_total_lines,
            self.preview.preview_height,
        );
    }

    /// Scrolls the preview up by `step` lines, stopping at the top.
    pub fn preview_up(&mut self, step: usize)
        requires
            app_wf(*old(self)),
        ensures
            app_wf(*final(self)),
            preview_up_done(*old(self), *final(self), step),
    {
        self.preview.preview_scroll = scroll_up(self.preview.preview_scroll, step);
    }

    /// Jumps to the next (or previous) comment of the preview.
    pub fn preview_section(&mut self, forward: bool)
        requires
            app_wf(*old(self)),
        ensures
            app_wf(*final(self)),
            preview_section_done(*old(self), *final(self), forward),
    {
        let target = if forward {
            next_section(&self.preview.preview_positions, self.preview.preview_scroll)
        } else {
            previous_section(&self.preview.preview_positions, self.preview.preview_scroll)
        };
        match target {
            Some(k) => {
                self.preview.preview_scroll = self.preview.preview_positions[k];
            },
            None => {},
        }
    }
}

/// Jumping a section moves to the first comment below the offset (or the
/// last one above it when going back); without one the offset stays.
pub open spec fn section_jump(positions: Seq<usize>, scroll: usize, forward: bool, result: usize) -> bool {
    if forward {
        if exists|k: int| 0 <= k < positions.len() && positions[k] > scroll {
            exists|k: int| 0 <= k < positions.len() && positions[k] > scroll && result == positions[k]
                && forall|j: int| 0 <= j < k ==> positions[j] <= scroll
        } else {
            result == scroll
        }
    } else {
        if exists|k: int| 0 <= k < positions.len() && positions[k] < scroll {
            exists|k: int| 0 <= k < positions.len() && positions[k] < scroll && result == positions[k]
                && forall|j: int| k < j < positions.len() ==> positions[j] >= scroll
        } else {
            result == scroll
        }
    }
}

fn total_fits(counts: &Vec<usize>) -> (r: bool)
    ensures
        r == (preview_total(counts@) <= usize::MAX),
{
    let mut total: u128 = 0;
    let n = counts.len();
    if n == 0 {
        return true;
    }
    let mut i: usize = 0;
    while i < n
        invariant
            n == counts@.len(),
            n > 0,
            i <= n,
            i == 0 ==> total == 0,
            i > 0 ==> total == crate::layout::comment_start(counts@, i - 1) + 2 + counts@[i - 1],
            total <= usize::MAX,
        decreases n - i,
    {
        if i > 0 {
            total = total + 3;
        }
        assert(i > 0 ==> crate::layout::comment_start(counts@, i as int) == crate::layout::comment_start(counts@, i - 1) + 2 + counts@[i - 1] + 3);
        total = total + 2 + counts[i] as u128;
        if total > usize::MAX as u128 {
            proof {
                lemma_total_grows(counts@, i as int);
            }
            return false;
        }
        i += 1;
    }
    true
}

proof fn lemma_total_grows(counts: Seq<usize>, i: int)
    requires
        0 <= i < counts.len(),
    ensures
        crate::layout::comment_start(counts, i) + 2 + counts[i] <= preview_total(counts),
    decreases counts.len() - i,
{
    if i < counts.len() - 1 {
        lemma_total_grows(counts, i + 1);
        assert(crate::layout::comment_start(counts, i + 1) == crate::layout::comment_start(counts, i) + 2 + counts[i] + 3);
        lemma_start_le(counts, i + 1, counts.len() - 1);
    }
}

proof fn lemma_start_le(counts: Seq<usize>, j: int, k: int)
    requires
        0 <= j <= k < counts.len(),
    ensures
        crate::layout::comment_start(counts, j) <= crate::layout::comment_start(counts, k),
    decreases k - j,
{
    if j < k {
        lemma_start_le(counts, j, k - 1);
    }
}

/// What `open_workflows` leaves, as plain values.
pub open spec fn open_workflows_done(old: App, new: App, cmd: Option<Command>) -> bool {
    &&& old.selected is None ==> cmd is None && new == old
    &&& old.selected is Some ==> {
        let p = current_list(old)[old.filtered_indices@[old.selected->0 as int] as int];
        &&& new.ci.show_workflows
        &&& !new.preview.show_preview
        &&& new.ci.workflows_pr == Some(p.number)
        &&& new.ci.actions_loading
        &&& cmd is Some
        &&& match p.head_sha {
            Some(h) => crate::engine::is_actions_fetch(cmd->0, p) && new.ci.pending_head_pr is None,
            None => new.ci.pending_head_pr == Some(p.number) && crate::engine::same_kind_filter_cmd(cmd->0, new),
        }
    }
}

/// What `actions_fetched` leaves, as plain values.
pub open spec fn actions_fetched_done(old: App, new: App, pr_number: u64, result: Result<ActionsData, String>) -> bool {
    &&& old.ci.workflows_pr != Some(pr_number) ==> new == old
    &&& old.ci.workflows_pr == Some(pr_number) ==> match result {
        Ok(data) => {
            &&& !new.ci.actions_loading
            &&& new.ci.actions_data == Some(data)
            &&& new.ci.actions_poll_enabled == any_running(data.workflow_runs@)
            &&& default_job_ok(data.workflow_runs@, new.ci.selected_job)
        },
        Err(e) => {
            &&& !new.ci.actions_loading
            &&& new.error == Some(e)
            &&& new.show_error_popup
        }
    }
}

/// What `move_job` leaves, as plain values.
pub open spec fn move_job_done(old: App, new: App, forward: bool) -> bool {
    &&& new == (App {
        ci: crate::engine::CiState { selected_job: new.ci.selected_job, ..old.ci },
        ..old
    })
    &&& new.ci.selected_job == match old.ci.actions_data {
        Some(d) => match neighbour_job(d.workflow_runs@, old.ci.selected_job, forward) {
            Some(x) => Some(x),
            None => old.ci.selected_job,
        },
        None => old.ci.selected_job
    }
}

/// What `poll_actions` leaves, as plain values.
pub open spec fn poll_actions_done(old: App, new: App, cmd: Option<Command>) -> bool {
    &&& (old.ci.show_workflows && old.ci.actions_poll_enabled && !old.ci.actions_loading
        && old.ci.workflows_pr is Some && old.ci.head_sha is Some) ==> {
        &&& new.ci.actions_loading
        &&& match cmd {
            Some(Command::StartActionsFetch { owner, repo, pr_number, head_sha }) => owner@
                == old.ci.owner@ && repo@ == old.ci.repo@ && Some(pr_number)
                == old.ci.workflows_pr && head_sha@ == old.ci.head_sha->0@,
            _ => false,
        }
    }
    &&& !(old.ci.show_workflows && old.ci.actions_poll_enabled && !old.ci.actions_loading
        && old.ci.workflows_pr is Some && old.ci.head_sha is Some) ==> cmd is None
        && new == old
}

/// What `close_workflows` leaves, as plain values.
pub open spec fn close_workflows_done(old: App, new: App) -> bool {
    &&& !new.ci.show_workflows
    &&& !new.ci.show_job_logs
    &&& !new.ci.actions_poll_enabled
}

/// What `open_job_logs` leaves, as plain values.
pub open spec fn open_job_logs_done(old: App, new: App, cmd: Option<Command>) -> bool {
    &&& (selected_job_of(old.ci) is None || !old.ci.show_workflows) ==> cmd is None && new == old
    &&& (selected_job_of(old.ci) is Some && old.ci.show_workflows) ==> {
        let job = selected_job_of(old.ci)->0;
        &&& new.show_error_popup == old.show_error_popup
        &&& new.ci.show_job_logs
        &&& match logs_plan(job, old.circleci_configured) {
            LogsPlan::Annotations => cmd is None && new.ci.show_annotations,
            LogsPlan::Text(t) => cmd is None && !new.ci.show_annotations && new.ci.job_logs_message is Some
                && new.ci.job_logs_message->0@ == t,
            LogsPlan::FetchCircleci(n) => new.ci.job_logs_loading && match cmd {
                Some(Command::StartCircleciJobLogsFetch { owner, repo, job_number, job_name }) =>
                    owner@ == old.ci.owner@ && repo@ == old.ci.repo@ && job_number == n && job_name@ == job.name@,
                _ => false,
            },
            LogsPlan::FetchDefault => new.ci.job_logs_loading && match cmd {
                Some(Command::StartJobLogsFetch { owner, repo, job_id, job_name }) =>
                    owner@ == old.ci.owner@ && repo@ == old.ci.repo@ && job_id == job.id && job_name@ == job.name@,
                _ => false,
            },
        }
    }
}

/// What `job_logs_fetched` leaves, as plain values.
pub open spec fn job_logs_fetched_done(old: App, new: App, job_id: u64, result: Result<JobLogs, String>) -> bool {
    &&& !(old.ci.show_job_logs && selected_job_of(old.ci) is Some && selected_job_of(old.ci)->0.id == job_id)
        ==> new == old
    &&& (old.ci.show_job_logs && selected_job_of(old.ci) is Some && selected_job_of(old.ci)->0.id == job_id)
        ==> {
        &&& !new.ci.job_logs_loading
        &&& match result {
            Ok(logs) => {
                &&& new.ci.job_logs == Some(logs)
                &&& match logs.steps {
                    Some(st) => new.ci.step_cursor is Some && default_cursor_ok(new.ci.step_cursor->0, st@)
                        && cursor_fits(new.ci.step_cursor->0, st@),
                    None => new.ci.step_cursor is None,
                }
            },
            Err(e) => new.ci.job_logs_message == Some(e),
        }
    }
}

/// What `close_job_logs` leaves, as plain values.
pub open spec fn close_job_logs_done(old: App, new: App) -> bool {
    &&& !new.ci.show_job_logs
    &&& new.ci.job_logs is None
}

/// What `move_step` leaves, as plain values.
pub open spec fn move_step_done(old: App, new: App, m: StepMove) -> bool {
    &&& new == (App {
        ci: crate::engine::CiState { step_cursor: new.ci.step_cursor, ..old.ci },
        ..old
    })
    &&& match (old.ci.job_logs, old.ci.step_cursor) {
        (Some(logs), Some(c)) => match logs.steps {
            Some(st) => if cursor_fits(c, st@) {
                new.ci.step_cursor is Some && step_moved(c, new.ci.step_cursor->0, st@, m)
            } else {
                new.ci.step_cursor == old.ci.step_cursor
            },
            None => new.ci.step_cursor == old.ci.step_cursor,
        },
        _ => new.ci.step_cursor == old.ci.step_cursor
    }
}

/// What `open_preview` leaves, as plain values.
pub open spec fn open_preview_done(old: App, new: App, cmd: Option<Command>) -> bool {
    &&& old.selected is None ==> cmd is None && new == old
    &&& old.selected is Some ==> {
        let p = current_list(old)[old.filtered_indices@[old.selected->0 as int] as int];
        &&& new.preview.show_preview
        &&& !new.ci.show_workflows
        &&& new.preview.preview_pr == Some(p.number)
        &&& new.preview.preview_scroll == 0
        &&& match cmd {
            Some(Command::StartPreviewFetch { owner, repo, pr_number }) => owner@ == p.repo_owner@
                && repo@ == p.repo_name@ && pr_number == p.number,
            _ => false,
        }
    }
}

/// What `preview_fetched` leaves, as plain values.
pub open spec fn preview_fetched_done(old: App, new: App, pr_number: u64, result: Result<PreviewData, String>, body_lines: Vec<usize>) -> bool {
    &&& old.preview.preview_pr != Some(pr_number) ==> new == old
    &&& old.preview.preview_pr == Some(pr_number) && result is Ok && preview_total(body_lines@) <= usize::MAX ==> {
        &&& !new.preview.preview_loading
        &&& new.preview.preview_total_lines == preview_total(body_lines@)
        &&& new.preview.preview_positions@.len() == body_lines@.len()
        &&& forall|i: int| 0 <= i < body_lines@.len() ==> new.preview.preview_positions@[i]
            == crate::layout::comment_start(body_lines@, i)
    }
    &&& old.preview.preview_pr == Some(pr_number) ==> match result {
        Ok(data) => new.preview.preview_data == Some(data) && !new.preview.preview_loading,
        Err(e) => {
            &&& !new.preview.preview_loading
            &&& new.error == Some(e)
            &&& new.show_error_popup
            &&& new.preview.preview_data == old.preview.preview_data
        }
    }
}

/// What `preview_down` leaves, as plain values.
pub open spec fn preview_down_done(old: App, new: App, step: usize) -> bool {
    &&& new.preview.preview_scroll == scrolled_down(
        old.preview.preview_scroll as nat,
        step as nat,
        old.preview.preview_total_lines as nat,
        old.preview.preview_height as nat
    )
    &&& new == (App { preview: new.preview, ..old })
}

/// What `preview_up` leaves, as plain values.
pub open spec fn preview_up_done(old: App, new: App, step: usize) -> bool {
    &&& new.preview.preview_scroll == if old.preview.preview_scroll >= step {
        old.preview.preview_scroll - step
    } else {
        0
    }
}

/// What `preview_section` leaves, as plain values.
pub open spec fn preview_section_done(old: App, new: App, forward: bool) -> bool {
    &&& new == (App {
        preview: crate::engine::PreviewState { preview_scroll: new.preview.preview_scroll, ..old.preview },
        ..old
    })
    &&& section_jump(old.preview.preview_positions@, old.preview.preview_scroll, forward,
        new.preview.preview_scroll)
}

/// What `open_step_in_editor` leaves, as plain values.
pub open spec fn open_step_in_editor_done(app: App, cmd: Option<Command>) -> bool {
    &&& match cmd {
        Some(Command::OpenInEditor { content, filename }) => app.ci.job_logs is Some
            && app.ci.job_logs->0.steps is Some && app.ci.step_cursor is Some && cursor_fits(
            app.ci.step_cursor->0,
            app.ci.job_logs->0.steps->0@,
        ) && app.ci.job_logs->0.steps->0@.len() > 0 && content@ == selected_output(
            app.ci.step_cursor->0,
            app.ci.job_logs->0.steps->0@,
        ) && filename@ == "step-output.log"@,
        Some(_) => false,
        None => !(app.ci.job_logs is Some && app.ci.job_logs->0.steps is Some && app.ci.step_cursor is Some
            && cursor_fits(app.ci.step_cursor->0, app.ci.job_logs->0.steps->0@)
            && app.ci.job_logs->0.steps->0@.len() > 0)
    }
}

} // verus!
