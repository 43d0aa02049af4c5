//! The shared vocabulary: pull requests, filters, CI data and the records
//! handed over by the code-review service.

use vstd::prelude::*;
use vstd::string::*;
use crate::text::{str_eq, uppercase, lowercase, upper_of, lower_of};

verus! {

/// Version of the cache layout that this build expects.
pub const CACHE_VERSION: i32 = 5;

/// Identifiers of the cache's version table.
#[derive(Clone, Copy, Debug, PartialEq, Eq, Structural)]
pub enum CacheMeta {
    Table,
    Key,
    Value,
}

impl CacheMeta {
    /// The SQL name of this table or column.
    pub fn name(&self) -> (r: &'static str)
        ensures
            r@ == match *self {
                CacheMeta::Table => "cache_meta"@,
                CacheMeta::Key => "key"@,
                CacheMeta::Value => "value"@,
            },
    {
        match self {
            CacheMeta::Table => "cache_meta",
            CacheMeta::Key => "key",
            CacheMeta::Value => "value",
        }
    }
}

/// Identifiers of the cached pull-request table.
#[derive(Clone, Copy, Debug, PartialEq, Eq, Structural)]
pub enum PullRequestsTable {
    Table,
    Number,
    Title,
    Branch,
    RepoOwner,
    RepoName,
    CiStatus,
    Filter,
    Author,
}

impl PullRequestsTable {
    /// The SQL name of this table or column.
    pub fn name(&self) -> (r: &'static str)
        ensures
            r@ == match *self {
                PullRequestsTable::Table => "pull_requests_table"@,
                PullRequestsTable::Number => "number"@,
                PullRequestsTable::Title => "title"@,
                PullRequestsTable::Branch => "branch"@,
                PullRequestsTable::RepoOwner => "repo_owner"@,
                PullRequestsTable::RepoName => "repo_name"@,
                PullRequestsTable::CiStatus => "ci_status"@,
                PullRequestsTable::Filter => "filter"@,
                PullRequestsTable::Author => "author"@,
            },
    {
        match self {
            PullRequestsTable::Table => "pull_requests_table",
            PullRequestsTable::Number => "number",
            PullRequestsTable::Title => "title",
            PullRequestsTable::Branch => "branch",
            PullRequestsTable::RepoOwner => "repo_owner",
            PullRequestsTable::RepoName => "repo_name",
            PullRequestsTable::CiStatus => "ci_status",
            PullRequestsTable::Filter => "filter",
            PullRequestsTable::Author => "author",
        }
    }
}

/// Identifiers of the label-filter table.
#[derive(Clone, Copy, Debug, PartialEq, Eq, Structural)]
pub enum LabelFiltersTable {
    Table,
    Id,
    LabelName,
    RepoOwner,
    RepoName,
}

impl LabelFiltersTable {
    /// The SQL name of this table or column.
    pub fn name(&self) -> (r: &'static str)
        ensures
            r@ == match *self {
                LabelFiltersTable::Table => "label_filters_table"@,
                LabelFiltersTable::Id => "id"@,
                LabelFiltersTable::LabelName => "label_name"@,
                LabelFiltersTable::RepoOwner => "repo_owner"@,
                LabelFiltersTable::RepoName => "repo_name"@,
            },
    {
        match self {
            LabelFiltersTable::Table => "label_filters_table",
            LabelFiltersTable::Id => "id",
            LabelFiltersTable::LabelName => "label_name",
            LabelFiltersTable::RepoOwner => "repo_owner",
            LabelFiltersTable::RepoName => "repo_name",
        }
    }
}

/// Combined CI state of a pull request's head commit.
#[derive(Clone, Copy, Debug, PartialEq, Eq, Structural)]
pub enum CiStatus {
    Unknown,
    Pending,
    Success,
    Failure,
}

/// The stored name of a CI status.
pub open spec fn ci_status_name(c: CiStatus) -> Seq<char> {
    match c {
        CiStatus::Unknown => "unknown"@,
        CiStatus::Pending => "pending"@,
        CiStatus::Success => "success"@,
        CiStatus::Failure => "failure"@,
    }
}

/// The text shown for a CI status.
pub open spec fn ci_status_label(c: CiStatus) -> Seq<char> {
    match c {
        CiStatus::Unknown => "N/A"@,
        CiStatus::Pending => "● Pending"@,
        CiStatus::Success => "✓ Passing"@,
        CiStatus::Failure => "✗ Failing"@,
    }
}

/// The CI status named by an upper-cased state string.
pub open spec fn ci_status_of_upper(u: Seq<char>) -> CiStatus {
    if u == "PENDING"@ {
        CiStatus::Pending
    } else if u == "SUCCESS"@ {
        CiStatus::Success
    } else if u == "FAILURE"@ || u == "ERROR"@ {
        CiStatus::Failure
    } else {
        CiStatus::Unknown
    }
}

impl CiStatus {
    /// The name under which the status is stored.
    pub fn to_str(self) -> (r: &'static str)
        ensures
            r@ == ci_status_name(self),
    {
        match self {
            CiStatus::Unknown => "unknown",
            CiStatus::Pending => "pending",
            CiStatus::Success => "success",
            CiStatus::Failure => "failure",
        }
    }

    /// The text shown for the status (icon and word).
    pub fn label(self) -> (r: &'static str)
        ensures
            r@ == ci_status_label(self),
    {
        match self {
            CiStatus::Unknown => "N/A",
            CiStatus::Pending => "● Pending",
            CiStatus::Success => "✓ Passing",
            CiStatus::Failure => "✗ Failing",
        }
    }

    /// The status named by an already upper-cased state string.
    pub fn from_upper(u: &str) -> (r: CiStatus)
        ensures
            r == ci_status_of_upper(u@),
    {
        if str_eq(u, "PENDING") {
            CiStatus::Pending
        } else if str_eq(u, "SUCCESS") {
            CiStatus::Success
        } else if str_eq(u, "FAILURE") || str_eq(u, "ERROR") {
            CiStatus::Failure
        } else {
            CiStatus::Unknown
        }
    }

    /// The status named by a state string, in any case.
    pub fn parse(s: &str) -> (r: CiStatus)
        ensures
            r == ci_status_of_upper(upper_of(s@)),
    {
        let u = uppercase(s);
        CiStatus::from_upper(u.as_str())
    }
}

/// Which list of pull requests is shown.
#[derive(Debug)]
pub enum PrFilter {
    MyPrs,
    ReviewRequested,
    Labels(Vec<String>),
}

/// The characters of each string of a list.
pub open spec fn strings_view(v: Seq<String>) -> Seq<Seq<char>> {
    v.map_values(|s: String| s@)
}

/// A filter as plain values.
pub enum FilterView {
    MyPrs,
    ReviewRequested,
    Labels(Seq<Seq<char>>),
}

impl View for PrFilter {
    type V = FilterView;

    open spec fn view(&self) -> FilterView {
        match self {
            PrFilter::MyPrs => FilterView::MyPrs,
            PrFilter::ReviewRequested => FilterView::ReviewRequested,
            PrFilter::Labels(l) => FilterView::Labels(strings_view(l@)),
        }
    }
}

/// The stored name of a filter kind.
pub open spec fn filter_name(f: PrFilter) -> Seq<char> {
    match f {
        PrFilter::MyPrs => "my_prs"@,
        PrFilter::ReviewRequested => "review_requested"@,
        PrFilter::Labels(_) => "labels"@,
    }
}

/// Label names joined by commas.
pub open spec fn joined_labels(l: Seq<Seq<char>>) -> Seq<char>
    decreases l.len(),
{
    if l.len() == 0 {
        Seq::empty()
    } else if l.len() == 1 {
        l[0]
    } else {
        joined_labels(l.drop_last()) + ","@ + l.last()
    }
}

/// The cache key of a filter: its kind, and for labels the label set.
pub open spec fn filter_key(f: PrFilter) -> Seq<char> {
    match f {
        PrFilter::Labels(l) => "labels:"@ + joined_labels(strings_view(l@)),
        _ => filter_name(f),
    }
}

/// Two filters are of the same kind (label filters match whatever their labels).
pub open spec fn same_kind(a: PrFilter, b: PrFilter) -> bool {
    match (a, b) {
        (PrFilter::MyPrs, PrFilter::MyPrs) => true,
        (PrFilter::ReviewRequested, PrFilter::ReviewRequested) => true,
        (PrFilter::Labels(_), PrFilter::Labels(_)) => true,
        _ => false,
    }
}

/// Copies a list of strings.
pub fn copy_strings(a: &Vec<String>) -> (r: Vec<String>)
    ensures
        strings_view(r@) == strings_view(a@),
{
    let mut r: Vec<String> = Vec::new();
    let mut i: usize = 0;
    while i < a.len()
        invariant
            i <= a@.len(),
            r@.len() == i,
            forall|j: int| 0 <= j < i ==> r@[j]@ == a@[j]@,
        decreases a@.len() - i,
    {
        r.push(a[i].clone());
        i += 1;
    }
    assert(strings_view(r@) =~= strings_view(a@));
    r
}

fn strings_eq(a: &Vec<String>, b: &Vec<String>) -> (r: bool)
    ensures
        r == (strings_view(a@) == strings_view(b@)),
{
    if a.len() != b.len() {
        assert(strings_view(a@).len() != strings_view(b@).len());
        return false;
    }
    let mut i: usize = 0;
    while i < a.len()
        invariant
            a@.len() == b@.len(),
            i <= a@.len(),
            forall|j: int| 0 <= j < i ==> a@[j]@ == b@[j]@,
        decreases a@.len() - i,
    {
        if !str_eq(a[i].as_str(), b[i].as_str()) {
            assert(strings_view(a@)[i as int] != strings_view(b@)[i as int]);
            return false;
        }
        i += 1;
    }
    assert(strings_view(a@) =~= strings_view(b@));
    true
}

impl PrFilter {
    /// The name under which the filter kind is stored.
    pub fn to_str(&self) -> (r: &'static str)
        ensures
            r@ == filter_name(*self),
    {
        match self {
            PrFilter::MyPrs => "my_prs",
            PrFilter::ReviewRequested => "review_requested",
            PrFilter::Labels(_) => "labels",
        }
    }

    /// The key under which the filter's list is cached.
    pub fn cache_key(&self) -> (r: String)
        ensures
            r@ == filter_key(*self),
    {
        match self {
            PrFilter::MyPrs => String::from_str("my_prs"),
            PrFilter::ReviewRequested => String::from_str("review_requested"),
            PrFilter::Labels(labels) => {
                let mut k = String::from_str("labels:");
                let ghost base = k@;
                let ghost lv = strings_view(labels@);
                let mut i: usize = 0;
                while i < labels.len()
                    invariant
                        i <= labels@.len(),
                        lv == strings_view(labels@),
                        k@ == base + joined_labels(lv.subrange(0, i as int)),
                    decreases labels@.len() - i,
                {
                    assert(lv.subrange(0, i + 1).drop_last() =~= lv.subrange(0, i as int));
                    if i > 0 {
                        k.append(",");
                    }
                    k.append(labels[i].as_str());
                    assert(k@ =~= base + joined_labels(lv.subrange(0, i + 1)));
                    i += 1;
                }
                assert(lv.subrange(0, labels@.len() as int) =~= lv);
                k
            },
        }
    }

    /// Whether two filters are of the same kind.
    pub fn same_kind_as(&self, other: &PrFilter) -> (r: bool)
        ensures
            r == same_kind(*self, *other),
    {
        match (self, other) {
            (PrFilter::MyPrs, PrFilter::MyPrs) => true,
            (PrFilter::ReviewRequested, PrFilter::ReviewRequested) => true,
            (PrFilter::Labels(_), PrFilter::Labels(_)) => true,
            _ => false,
        }
    }
}

impl Clone for PrFilter {
    fn clone(&self) -> (r: Self)
        ensures
            r@ == self@,
            same_kind(r, *self),
    {
        match self {
            PrFilter::MyPrs => PrFilter::MyPrs,
            PrFilter::ReviewRequested => PrFilter::ReviewRequested,
            PrFilter::Labels(l) => PrFilter::Labels(copy_strings(l)),
        }
    }
}

impl PartialEq for PrFilter {
    fn eq(&self, other: &PrFilter) -> (r: bool) {
        match (self, other) {
            (PrFilter::MyPrs, PrFilter::MyPrs) => true,
            (PrFilter::ReviewRequested, PrFilter::ReviewRequested) => true,
            (PrFilter::Labels(a), PrFilter::Labels(b)) => strings_eq(a, b),
            _ => false,
        }
    }
}

impl vstd::std_specs::cmp::PartialEqSpecImpl for PrFilter {
    open spec fn obeys_eq_spec() -> bool {
        true
    }

    open spec fn eq_spec(&self, other: &PrFilter) -> bool {
        self@ == other@
    }
}

} // verus!
