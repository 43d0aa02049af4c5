//! The initial state: cached lists and label filters of the current repository.

use vstd::prelude::*;
use crate::cache::{CacheStore, loaded, rows_view, shows_labels};
use crate::engine::{App, CiState, PreviewState, app_wf, first_row, label_names};
use crate::models::{PullRequest, LabelFilter, prs_view, opt_view, labels_view};
use crate::types::{PrFilter, joined_labels, strings_view};

verus! {

fn names_of(labels: &Vec<LabelFilter>) -> (r: Vec<String>)
    ensures
        strings_view(r@) == label_names(labels@),
{
    let mut r: Vec<String> = Vec::new();
    let mut i: usize = 0;
    while i < labels.len()
        invariant
            i <= labels@.len(),
            r@.len() == i,
            forall|j: int| 0 <= j < i ==> (#[trigger] r@[j])@ == labels@[j].label_name@,
        decreases labels@.len() - i,
    {
        r.push(labels[i].label_name.clone());
        i += 1;
    }
    assert(strings_view(r@) =~= label_names(labels@));
    r
}

impl App {
    /// The state at startup, over an opened cache: the three lists of the
    /// current repository as cached, "My PRs" shown from its first row, and
    /// both fetched lists marked loading. Outside a repository the lists
    /// start empty.
    pub fn new(repo_owner: Option<String>, repo_name: Option<String>, cache: CacheStore, circleci_configured: bool) -> (r: App)
        requires
            cache.wf(),
        ensures
            app_wf(r),
            r.pr_filter is MyPrs,
            r.loading_my_prs && r.loading_review_prs && !r.loading_labels_prs,
            r.filtered_indices@ == Seq::new(r.my_prs@.len(), |i: int| i as usize),
            r.selected == first_row(r.filtered_indices@),
            opt_view(r.repo_owner) == opt_view(repo_owner),
            opt_view(r.repo_name) == opt_view(repo_name),
            match (repo_owner, repo_name) {
                (Some(o), Some(n)) => prs_view(r.my_prs@) == loaded(rows_view(cache.prs@), o@, n@, "my_prs"@)
                    && prs_view(r.review_prs@) == loaded(rows_view(cache.prs@), o@, n@, "review_requested"@)
                    && prs_view(r.labels_prs@) == loaded(
                    rows_view(cache.prs@),
                    o@,
                    n@,
                    "labels:"@ + joined_labels(label_names(r.configured_labels@)),
                ) && shows_labels(r.configured_labels@, labels_view(cache.labels@), o@, n@),
                _ => r.my_prs@.len() == 0 && r.review_prs@.len() == 0 && r.labels_prs@.len() == 0
                    && r.configured_labels@.len() == 0,
            },
            r.circleci_configured == circleci_configured,
            r.cache == cache,
            r.search_query@ == Seq::<char>::empty(),
            !r.search_mode,
            r.error is None,
            !r.show_help_popup && !r.show_checkout_popup && !r.show_error_popup && !r.show_labels_popup
                && !r.show_add_label_popup,
            r.pending_checkout_branch is None,
            r.labels_selected is None,
            !r.ci.show_workflows && !r.ci.show_job_logs && !r.preview.show_preview,
            r.ci.pending_head_pr is None,
    {
        let (my_prs, review_prs, labels_prs, configured_labels) = match (&repo_owner, &repo_name) {
            (Some(o), Some(n)) => {
                let configured = cache.load_label_filters(o.as_str(), n.as_str());
                let labels_filter = PrFilter::Labels(names_of(&configured));
                (
                    cache.load_cache(o.as_str(), n.as_str(), &PrFilter::MyPrs),
                    cache.load_cache(o.as_str(), n.as_str(), &PrFilter::ReviewRequested),
                    cache.load_cache(o.as_str(), n.as_str(), &labels_filter),
                    configured,
                )
            },
            _ => (Vec::new(), Vec::new(), Vec::new(), Vec::new()),
        };
        let mut filtered_indices: Vec<usize> = Vec::new();
        let mut i: usize = 0;
        while i < my_prs.len()
            invariant
                i <= my_prs@.len(),
                filtered_indices@ == Seq::new(i as nat, |k: int| k as usize),
            decreases my_prs@.len() - i,
        {
            filtered_indices.push(i);
            i += 1;
            assert(filtered_indices@ =~= Seq::new(i as nat, |k: int| k as usize));
        }
        let selected = if my_prs.len() == 0 { None } else { Some(0) };
        App {
            my_prs,
            review_prs,
            labels_prs,
            configured_labels,
            pr_filter: PrFilter::MyPrs,
            selected,
            filtered_indices,
            search_mode: false,
            search_query: String::new(),
            loading_my_prs: true,
            loading_review_prs: true,
            loading_labels_prs: false,
            show_help_popup: false,
            show_checkout_popup: false,
            show_error_popup: false,
            show_labels_popup: false,
            show_add_label_popup: false,
            error: None,
            pending_checkout_branch: None,
            label_input: String::new(),
            label_scope_global: false,
            labels_selected: None,
            repo_owner,
            repo_name,
            cache,
            spinner_idx: 0,
            circleci_configured,
            ci: CiState {
                show_workflows: false,
                owner: String::new(),
                repo: String::new(),
                workflows_pr: None,
                head_sha: None,
                pending_head_pr: None,
                actions_data: None,
                actions_loading: false,
                actions_poll_enabled: false,
                selected_job: None,
                show_job_logs: false,
                show_annotations: false,
                job_logs: None,
                job_logs_loading: false,
                job_logs_message: None,
                step_cursor: None,
            },
            preview: PreviewState {
                show_preview: false,
                preview_pr: None,
                preview_data: None,
                preview_loading: false,
                preview_scroll: 0,
                preview_positions: Vec::new(),
                preview_total_lines: 0,
                preview_height: 0,
            },
        }
    }
}

} // verus!
