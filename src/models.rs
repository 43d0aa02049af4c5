//! Pull requests and configured label filters.

use vstd::prelude::*;
use crate::types::CiStatus;

verus! {

/// A pull request as listed on one of the tabs.
#[derive(Debug)]
pub struct PullRequest {
    pub number: u64,
    pub title: String,
    pub branch: String,
    pub repo_owner: String,
    pub repo_name: String,
    pub ci_status: CiStatus,
    pub author: String,
    pub head_sha: Option<String>,
}

/// A pull request as plain values.
pub struct PrView {
    pub number: u64,
    pub title: Seq<char>,
    pub branch: Seq<char>,
    pub repo_owner: Seq<char>,
    pub repo_name: Seq<char>,
    pub ci_status: CiStatus,
    pub author: Seq<char>,
    pub head_sha: Option<Seq<char>>,
}

/// The characters of an optional string.
pub open spec fn opt_view(o: Option<String>) -> Option<Seq<char>> {
    match o {
        Some(s) => Some(s@),
        None => None,
    }
}

/// Copies an optional string.
pub fn copy_opt(o: &Option<String>) -> (r: Option<String>)
    ensures
        opt_view(r) == opt_view(*o),
{
    match o {
        Some(s) => Some(s.clone()),
        None => None,
    }
}

impl View for PullRequest {
    type V = PrView;

    open spec fn view(&self) -> PrView {
        PrView {
            number: self.number,
            title: self.title@,
            branch: self.branch@,
            repo_owner: self.repo_owner@,
            repo_name: self.repo_name@,
            ci_status: self.ci_status,
            author: self.author@,
            head_sha: opt_view(self.head_sha),
        }
    }
}

/// Each pull request of a list as plain values.
pub open spec fn prs_view(v: Seq<PullRequest>) -> Seq<PrView> {
    v.map_values(|p: PullRequest| p@)
}

impl Clone for PullRequest {
    fn clone(&self) -> (r: Self)
        ensures
            r@ == self@,
    {
        PullRequest {
            number: self.number,
            title: self.title.clone(),
            branch: self.branch.clone(),
            repo_owner: self.repo_owner.clone(),
            repo_name: self.repo_name.clone(),
            ci_status: self.ci_status,
            author: self.author.clone(),
            head_sha: copy_opt(&self.head_sha),
        }
    }
}

/// A label whose pull requests are listed on the labels tab; without owner
/// and repository it applies to every repository.
#[derive(Debug)]
pub struct LabelFilter {
    pub id: i64,
    pub label_name: String,
    pub repo_owner: Option<String>,
    pub repo_name: Option<String>,
}

/// A label filter as plain values.
pub struct LabelView {
    pub id: i64,
    pub label_name: Seq<char>,
    pub repo_owner: Option<Seq<char>>,
    pub repo_name: Option<Seq<char>>,
}

impl View for LabelFilter {
    type V = LabelView;

    open spec fn view(&self) -> LabelView {
        LabelView {
            id: self.id,
            label_name: self.label_name@,
            repo_owner: opt_view(self.repo_owner),
            repo_name: opt_view(self.repo_name),
        }
    }
}

/// Each label filter of a list as plain values.
pub open spec fn labels_view(v: Seq<LabelFilter>) -> Seq<LabelView> {
    v.map_values(|l: LabelFilter| l@)
}

impl Clone for LabelFilter {
    fn clone(&self) -> (r: Self)
        ensures
            r@ == self@,
    {
        LabelFilter {
            id: self.id,
            label_name: self.label_name.clone(),
            repo_owner: copy_opt(&self.repo_owner),
            repo_name: copy_opt(&self.repo_name),
        }
    }
}

impl LabelFilter {
    /// A filter without owner and repository applies everywhere.
    pub fn is_global(&self) -> (r: bool)
        ensures
            r == (self.repo_owner is None && self.repo_name is None),
    {
        self.repo_owner.is_none() && self.repo_name.is_none()
    }
}

} // verus!
