//! CI data: workflow runs, their jobs, annotations, job logs and previews.

use vstd::prelude::*;
use crate::text::{str_eq, lowercase, uppercase, lower_of, upper_of};

verus! {

/// Status of a workflow run or job.
#[derive(Clone, Copy, Debug, PartialEq, Eq, Structural)]
pub enum WorkflowStatus {
    Queued,
    InProgress,
    Completed,
    Waiting,
    Requested,
    Pending,
    Unknown,
}

/// The status named by a lower-cased string.
pub open spec fn workflow_status_of_lower(l: Seq<char>) -> WorkflowStatus {
    if l == "queued"@ {
        WorkflowStatus::Queued
    } else if l == "in_progress"@ {
        WorkflowStatus::InProgress
    } else if l == "completed"@ {
        WorkflowStatus::Completed
    } else if l == "waiting"@ {
        WorkflowStatus::Waiting
    } else if l == "requested"@ {
        WorkflowStatus::Requested
    } else if l == "pending"@ {
        WorkflowStatus::Pending
    } else {
        WorkflowStatus::Unknown
    }
}

impl WorkflowStatus {
    /// The status named by an already lower-cased string.
    pub fn from_lower(l: &str) -> (r: WorkflowStatus)
        ensures
            r == workflow_status_of_lower(l@),
    {
        if str_eq(l, "queued") {
            WorkflowStatus::Queued
        } else if str_eq(l, "in_progress") {
            WorkflowStatus::InProgress
        } else if str_eq(l, "completed") {
            WorkflowStatus::Completed
        } else if str_eq(l, "waiting") {
            WorkflowStatus::Waiting
        } else if str_eq(l, "requested") {
            WorkflowStatus::Requested
        } else if str_eq(l, "pending") {
            WorkflowStatus::Pending
        } else {
            WorkflowStatus::Unknown
        }
    }

    /// The status named by a string, in any case.
    pub fn parse(s: &str) -> (r: WorkflowStatus)
        ensures
            r == workflow_status_of_lower(lower_of(s@)),
    {
        let l = lowercase(s);
        WorkflowStatus::from_lower(l.as_str())
    }
}

/// Outcome of a completed workflow run or job.
#[derive(Clone, Copy, Debug, PartialEq, Eq, Structural)]
pub enum WorkflowConclusion {
    Success,
    Failure,
    Cancelled,
    Skipped,
    TimedOut,
    ActionRequired,
    Neutral,
    Stale,
    StartupFailure,
    Unknown,
}

/// The conclusion named by a lower-cased string.
pub open spec fn conclusion_of_lower(l: Seq<char>) -> WorkflowConclusion {
    if l == "success"@ {
        WorkflowConclusion::Success
    } else if l == "failure"@ {
        WorkflowConclusion::Failure
    } else if l == "cancelled"@ {
        WorkflowConclusion::Cancelled
    } else if l == "skipped"@ {
        WorkflowConclusion::Skipped
    } else if l == "timed_out"@ {
        WorkflowConclusion::TimedOut
    } else if l == "action_required"@ {
        WorkflowConclusion::ActionRequired
    } else if l == "neutral"@ {
        WorkflowConclusion::Neutral
    } else if l == "stale"@ {
        WorkflowConclusion::Stale
    } else if l == "startup_failure"@ {
        WorkflowConclusion::StartupFailure
    } else {
        WorkflowConclusion::Unknown
    }
}

/// Conclusions that count as a failed job.
pub open spec fn is_failure_kind(c: WorkflowConclusion) -> bool {
    c == WorkflowConclusion::Failure || c == WorkflowConclusion::TimedOut
        || c == WorkflowConclusion::StartupFailure
}

impl WorkflowConclusion {
    /// The conclusion named by an already lower-cased string.
    pub fn from_lower(l: &str) -> (r: WorkflowConclusion)
        ensures
            r == conclusion_of_lower(l@),
    {
        if str_eq(l, "success") {
            WorkflowConclusion::Success
        } else if str_eq(l, "failure") {
            WorkflowConclusion::Failure
        } else if str_eq(l, "cancelled") {
            WorkflowConclusion::Cancelled
        } else if str_eq(l, "skipped") {
            WorkflowConclusion::Skipped
        } else if str_eq(l, "timed_out") {
            WorkflowConclusion::TimedOut
        } else if str_eq(l, "action_required") {
            WorkflowConclusion::ActionRequired
        } else if str_eq(l, "neutral") {
            WorkflowConclusion::Neutral
        } else if str_eq(l, "stale") {
            WorkflowConclusion::Stale
        } else if str_eq(l, "startup_failure") {
            WorkflowConclusion::StartupFailure
        } else {
            WorkflowConclusion::Unknown
        }
    }

    /// The conclusion named by a string, in any case.
    pub fn parse(s: &str) -> (r: WorkflowConclusion)
        ensures
            r == conclusion_of_lower(lower_of(s@)),
    {
        let l = lowercase(s);
        WorkflowConclusion::from_lower(l.as_str())
    }

    /// Whether the conclusion counts as a failed job.
    pub fn is_failure(self) -> (r: bool)
        ensures
            r == is_failure_kind(self),
    {
        match self {
            WorkflowConclusion::Failure | WorkflowConclusion::TimedOut
            | WorkflowConclusion::StartupFailure => true,
            _ => false,
        }
    }
}

/// Severity of a check annotation.
#[derive(Clone, Copy, Debug, PartialEq, Eq, Structural)]
pub enum AnnotationLevel {
    Notice,
    Warning,
    Failure,
}

/// The level named by an upper-cased string.
pub open spec fn level_of_upper(u: Seq<char>) -> AnnotationLevel {
    if u == "WARNING"@ {
        AnnotationLevel::Warning
    } else if u == "FAILURE"@ {
        AnnotationLevel::Failure
    } else {
        AnnotationLevel::Notice
    }
}

impl AnnotationLevel {
    /// The level named by an already upper-cased string.
    pub fn from_upper(u: &str) -> (r: AnnotationLevel)
        ensures
            r == level_of_upper(u@),
    {
        if str_eq(u, "WARNING") {
            AnnotationLevel::Warning
        } else if str_eq(u, "FAILURE") {
            AnnotationLevel::Failure
        } else {
            AnnotationLevel::Notice
        }
    }

    /// The level named by a string, in any case.
    pub fn parse(s: &str) -> (r: AnnotationLevel)
        ensures
            r == level_of_upper(upper_of(s@)),
    {
        let u = uppercase(s);
        AnnotationLevel::from_upper(u.as_str())
    }
}

/// A structured finding attached to a job.
#[derive(Debug, Clone)]
pub struct CheckAnnotation {
    pub path: String,
    pub start_line: u32,
    pub end_line: u32,
    pub level: AnnotationLevel,
    pub message: String,
    pub title: Option<String>,
}

/// A job within a workflow run.
#[derive(Debug, Clone)]
pub struct WorkflowJob {
    pub id: u64,
    pub name: String,
    pub status: WorkflowStatus,
    pub conclusion: Option<WorkflowConclusion>,
    pub started_at: Option<String>,
    pub completed_at: Option<String>,
    pub details_url: Option<String>,
    pub summary: Option<String>,
    pub text: Option<String>,
    pub annotations: Vec<CheckAnnotation>,
}

/// One step of a job's log; a parallel container holds the steps it ran.
#[derive(Debug)]
pub struct JobStep {
    pub name: String,
    pub status: String,
    pub output: String,
    pub is_failed: bool,
    pub sub_steps: Option<Vec<JobStep>>,
}

/// The log of a job: a plain text, and the steps when they are known.
#[derive(Debug)]
pub struct JobLogs {
    pub job_id: u64,
    pub job_name: String,
    pub content: String,
    pub steps: Option<Vec<JobStep>>,
}

/// A workflow run and its jobs.
#[derive(Debug, Clone)]
pub struct WorkflowRun {
    pub id: u64,
    pub name: String,
    pub status: WorkflowStatus,
    pub conclusion: Option<WorkflowConclusion>,
    pub html_url: String,
    pub jobs: Vec<WorkflowJob>,
    pub created_at: String,
    pub updated_at: String,
}

/// All CI data fetched for one pull request.
#[derive(Debug, Clone)]
pub struct ActionsData {
    pub pr_number: u64,
    pub workflow_runs: Vec<WorkflowRun>,
    pub error: Option<String>,
}

/// A comment on a pull request, or its description.
#[derive(Debug, Clone)]
pub struct PrComment {
    pub author: String,
    pub body: String,
    pub created_at: String,
    pub is_pr_body: bool,
}

/// A pull request's description and its comments, oldest first.
#[derive(Debug, Clone)]
pub struct PreviewData {
    pub pr_number: u64,
    pub title: String,
    pub comments: Vec<PrComment>,
    pub error: Option<String>,
}

} // verus!
