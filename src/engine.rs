//! The update engine: application state, the messages it reacts to, the
//! commands it asks the host to carry out, and the transition function.

use vstd::prelude::*;
use vstd::string::*;
use crate::cache::{CacheStore, CacheError};
use crate::ci::{ActionsData, JobLogs, PreviewData};
use crate::models::{PullRequest, LabelFilter, prs_view};
use crate::search::{filter_prs, filtered_ok};
use crate::steps::{StepCursor, cursor_fits};
use crate::types::{PrFilter, FilterView, same_kind, strings_view, copy_strings};

verus! {

/// The result of a pull-request list fetch, tagged with its filter.
#[derive(Debug)]
pub enum FetchResult {
    Success(Vec<PullRequest>, PrFilter),
    Error(String),
}

/// A side effect the engine asks the host to carry out.
#[derive(Debug)]
pub enum Command {
    Quit,
    StartFetch(PrFilter),
    ExitAfterCheckout,
    /// Check out a branch; the outcome comes back as `CheckoutFinished`.
    Checkout(String),
    /// Open a URL in the browser.
    OpenUrl(String),
    StartActionsFetch { owner: String, repo: String, pr_number: u64, head_sha: String },
    StartJobLogsFetch { owner: String, repo: String, job_id: u64, job_name: String },
    StartCircleciJobLogsFetch { owner: String, repo: String, job_number: u64, job_name: String },
    StartPreviewFetch { owner: String, repo: String, pr_number: u64 },
    OpenInEditor { content: String, filename: String },
}

/// An input event or a fetch result.
#[derive(Debug)]
pub enum Message {
    // Navigation
    NextItem,
    PreviousItem,
    GoToTop,
    GoToBottom,
    // Tab switching
    SwitchTab(PrFilter),
    // Actions
    OpenSelected,
    PromptCheckout,
    ConfirmCheckout,
    CancelCheckout,
    CheckoutFinished(Result<(), String>),
    Refresh,
    // Search
    EnterSearchMode,
    ExitSearchMode { clear: bool },
    SearchInput(char),
    SearchBackspace,
    // Popups
    ToggleHelp,
    DismissHelp,
    DismissError,
    // Labels
    OpenLabelsPopup,
    CloseLabelsPopup,
    OpenAddLabelPopup,
    CloseAddLabelPopup,
    LabelInput(char),
    LabelBackspace,
    ToggleLabelScope,
    AddLabel,
    DeleteSelectedLabel,
    LabelsNext,
    LabelsPrevious,
    // Workflows view
    OpenWorkflows,
    CloseWorkflows,
    JobsNext,
    JobsPrevious,
    ActionsFetched(u64, Result<ActionsData, String>),
    /// Time to refresh the CI data of the workflows view.
    PollActions,
    // Job logs
    OpenJobLogs,
    CloseJobLogs,
    JobLogsFetched(u64, Result<JobLogs, String>),
    StepNext,
    StepPrevious,
    StepToggle,
    /// Open the selected step's output in the editor.
    OpenStepInEditor,
    // Preview
    OpenPreview,
    ClosePreview,
    PreviewFetched { pr_number: u64, result: Result<PreviewData, String>, body_lines: Vec<usize> },
    PreviewScrollDown,
    PreviewScrollUp,
    PreviewPageDown,
    PreviewPageUp,
    PreviewNextSection,
    PreviewPreviousSection,
    SetPreviewHeight(usize),
    // Async results
    FetchComplete(FetchResult),
    // System
    Tick,
    Quit,
}

/// The whole state of the dashboard.
#[derive(Debug)]
pub struct App {
    pub my_prs: Vec<PullRequest>,
    pub review_prs: Vec<PullRequest>,
    pub labels_prs: Vec<PullRequest>,
    pub configured_labels: Vec<LabelFilter>,
    pub pr_filter: PrFilter,
    /// The selected row of the list (an index into `filtered_indices`).
    pub selected: Option<usize>,
    pub filtered_indices: Vec<usize>,
    pub search_mode: bool,
    pub search_query: String,
    pub loading_my_prs: bool,
    pub loading_review_prs: bool,
    pub loading_labels_prs: bool,
    pub show_help_popup: bool,
    pub show_checkout_popup: bool,
    pub show_error_popup: bool,
    pub show_labels_popup: bool,
    pub show_add_label_popup: bool,
    pub error: Option<String>,
    pub pending_checkout_branch: Option<String>,
    pub label_input: String,
    pub label_scope_global: bool,
    /// The selected row of the labels popup.
    pub labels_selected: Option<usize>,
    pub repo_owner: Option<String>,
    pub repo_name: Option<String>,
    pub cache: CacheStore,
    pub spinner_idx: usize,
    /// Whether the CircleCI backend has a token.
    pub circleci_configured: bool,
    pub ci: CiState,
    pub preview: PreviewState,
}

/// State of the workflows view and its job-logs sub-view.
#[derive(Debug)]
pub struct CiState {
    pub show_workflows: bool,
    /// Owner and repository of the pull request whose CI is shown.
    pub owner: String,
    pub repo: String,
    pub workflows_pr: Option<u64>,
    /// The head commit of the pull request whose CI is shown, once known.
    pub head_sha: Option<String>,
    /// A pull request whose head commit is awaited before its CI data can be fetched.
    pub pending_head_pr: Option<u64>,
    pub actions_data: Option<ActionsData>,
    pub actions_loading: bool,
    pub actions_poll_enabled: bool,
    /// The selected job, as (run, job) indices.
    pub selected_job: Option<(usize, usize)>,
    pub show_job_logs: bool,
    pub show_annotations: bool,
    pub job_logs: Option<JobLogs>,
    pub job_logs_loading: bool,
    pub job_logs_message: Option<String>,
    pub step_cursor: Option<StepCursor>,
}

/// State of the preview view.
#[derive(Debug)]
pub struct PreviewState {
    pub show_preview: bool,
    pub preview_pr: Option<u64>,
    pub preview_data: Option<PreviewData>,
    pub preview_loading: bool,
    pub preview_scroll: usize,
    pub preview_positions: Vec<usize>,
    pub preview_total_lines: usize,
    pub preview_height: usize,
}

/// Number of frames of the loading spinner.
pub const SPINNER_FRAME_COUNT: usize = 10;

/// The list shown under a filter.
pub open spec fn list_of(app: App, f: PrFilter) -> Seq<PullRequest> {
    match f {
        PrFilter::MyPrs => app.my_prs@,
        PrFilter::ReviewRequested => app.review_prs@,
        PrFilter::Labels(_) => app.labels_prs@,
    }
}

/// The list of the active filter.
pub open spec fn current_list(app: App) -> Seq<PullRequest> {
    list_of(app, app.pr_filter)
}

/// Whether the list of the active filter is loading.
pub open spec fn current_loading(app: App) -> bool {
    match app.pr_filter {
        PrFilter::MyPrs => app.loading_my_prs,
        PrFilter::ReviewRequested => app.loading_review_prs,
        PrFilter::Labels(_) => app.loading_labels_prs,
    }
}

/// The selection after re-filtering: the first row, or none when nothing is shown.
pub open spec fn first_row(indices: Seq<usize>) -> Option<usize> {
    if indices.len() == 0 { None } else { Some(0usize) }
}

/// The names of the configured labels.
pub open spec fn label_names(labels: Seq<LabelFilter>) -> Seq<Seq<char>> {
    labels.map_values(|l: LabelFilter| l.label_name@)
}

/// The engine's state invariant: the selections point into their lists.
pub open spec fn app_wf(app: App) -> bool {
    &&& app.cache.wf()
    &&& forall|k: int| 0 <= k < app.filtered_indices@.len() ==> (#[trigger] app.filtered_indices@[k]) < current_list(app).len()
    &&& app.selected is Some ==> app.selected->0 < app.filtered_indices@.len()
    &&& app.labels_selected is Some ==> app.labels_selected->0 < app.configured_labels@.len()
    &&& app.spinner_idx < SPINNER_FRAME_COUNT
    &&& !(app.ci.show_workflows && app.preview.show_preview)
    &&& (app.ci.show_job_logs ==> app.ci.show_workflows)
}

/// The row below the selection, staying on the last row.
pub open spec fn next_row(sel: Option<usize>, len: nat) -> Option<usize> {
    if len == 0 {
        sel
    } else {
        match sel {
            Some(i) => if i + 1 >= len { Some(i) } else { Some((i + 1) as usize) },
            None => Some(0usize),
        }
    }
}

/// The row above the selection, staying on the first row.
pub open spec fn previous_row(sel: Option<usize>, len: nat) -> Option<usize> {
    if len == 0 {
        sel
    } else {
        match sel {
            Some(i) => if i == 0 { Some(0usize) } else { Some((i - 1) as usize) },
            None => Some(0usize),
        }
    }
}

/// The row below the selection in a list of `len` rows.
pub fn next_of_pub(sel: Option<usize>, len: usize) -> (r: Option<usize>)
    ensures
        r == next_row(sel, len as nat),
{
    next_of(sel, len)
}

/// The row above the selection in a list of `len` rows.
pub fn previous_of_pub(sel: Option<usize>, len: usize) -> (r: Option<usize>)
    ensures
        r == previous_row(sel, len as nat),
{
    previous_of(sel, len)
}

fn next_of(sel: Option<usize>, len: usize) -> (r: Option<usize>)
    ensures
        r == next_row(sel, len as nat),
{
    if len == 0 {
        return sel;
    }
    match sel {
        Some(i) => if i >= len - 1 { Some(i) } else { Some(i + 1) },
        None => Some(0),
    }
}

fn previous_of(sel: Option<usize>, len: usize) -> (r: Option<usize>)
    ensures
        r == previous_row(sel, len as nat),
{
    if len == 0 {
        return sel;
    }
    match sel {
        Some(i) => if i == 0 { Some(0) } else { Some(i - 1) },
        None => Some(0),
    }
}

impl App {
    /// The list of the active filter.
    pub fn current_prs(&self) -> (r: &Vec<PullRequest>)
        ensures
            r@ == current_list(*self),
    {
        match &self.pr_filter {
            PrFilter::MyPrs => &self.my_prs,
            PrFilter::ReviewRequested => &self.review_prs,
            PrFilter::Labels(_) => &self.labels_prs,
        }
    }

    /// Whether the list of the active filter is loading.
    pub fn is_loading(&self) -> (r: bool)
        ensures
            r == current_loading(*self),
    {
        match &self.pr_filter {
            PrFilter::MyPrs => self.loading_my_prs,
            PrFilter::ReviewRequested => self.loading_review_prs,
            PrFilter::Labels(_) => self.loading_labels_prs,
        }
    }

    /// The names of the configured labels, in order.
    pub fn get_active_labels(&self) -> (r: Vec<String>)
        ensures
            strings_view(r@) == label_names(self.configured_labels@),
    {
        let mut r: Vec<String> = Vec::new();
        let mut i: usize = 0;
        while i < self.configured_labels.len()
            invariant
                i <= self.configured_labels@.len(),
                r@.len() == i,
                forall|j: int| 0 <= j < i ==> (#[trigger] r@[j])@ == self.configured_labels@[j].label_name@,
            decreases self.configured_labels@.len() - i,
        {
            r.push(self.configured_labels[i].label_name.clone());
            i += 1;
        }
        assert(strings_view(r@) =~= label_names(self.configured_labels@));
        r
    }

    /// The pull request on the selected row, if any.
    pub fn selected_pr(&self) -> (r: Option<&PullRequest>)
        requires
            app_wf(*self),
        ensures
            match self.selected {
                Some(s) => r == Some(&current_list(*self)[self.filtered_indices@[s as int] as int]),
                None => r is None,
            },
    {
        match self.selected {
            Some(s) => {
                let idx = self.filtered_indices[s];
                Some(&self.current_prs()[idx])
            },
            None => None,
        }
    }

    /// Moves the selection one row down.
    pub fn next_item(&mut self)
        requires
            app_wf(*old(self)),
        ensures
            app_wf(*final(self)),
            *final(self) == (App { selected: next_row(old(self).selected, old(self).filtered_indices@.len()), ..*old(self) }),
    {
        self.selected = next_of(self.selected, self.filtered_indices.len());
    }

    /// Moves the selection one row up.
    pub fn previous_item(&mut self)
        requires
            app_wf(*old(self)),
        ensures
            app_wf(*final(self)),
            *final(self) == (App { selected: previous_row(old(self).selected, old(self).filtered_indices@.len()), ..*old(self) }),
    {
        self.selected = previous_of(self.selected, self.filtered_indices.len());
    }
}

/// Filtered indices point into the filtered list.
proof fn lemma_filtered_in_range(r: Seq<usize>, prs: Seq<PullRequest>, q: Seq<char>)
    requires
        filtered_ok(r, prs, q),
    ensures
        forall|k: int| 0 <= k < r.len() ==> (#[trigger] r[k]) < prs.len(),
{
    if q.len() == 0 {
        assert forall|k: int| 0 <= k < r.len() implies (#[trigger] r[k]) < prs.len() by {
            assert(r[k] == k as usize);
        }
    }
}

/// A string without its last character.
pub open spec fn drop_last_char(s: Seq<char>) -> Seq<char> {
    if s.len() == 0 { s } else { s.drop_last() }
}

/// A copy of a string without its last character.
pub fn pop_string(s: &String) -> (r: String)
    ensures
        r@ == drop_last_char(s@),
{
    pop_char(s)
}

fn pop_char(s: &String) -> (r: String)
    ensures
        r@ == drop_last_char(s@),
{
    let v = crate::text::chars_of(s.as_str());
    if v.len() == 0 {
        return String::new();
    }
    let r = crate::text::string_of(&v, 0, v.len() - 1);
    assert(r@ =~= drop_last_char(s@));
    r
}

impl App {
    /// Recomputes the shown rows from the active list and query, and selects the first one.
    pub fn refilter(&mut self)
        requires
            app_wf(*old(self)),
        ensures
            app_wf(*final(self)),
            filtered_ok(final(self).filtered_indices@, current_list(*old(self)), old(self).search_query@),
            *final(self) == (App {
                filtered_indices: final(self).filtered_indices,
                selected: first_row(final(self).filtered_indices@),
                ..*old(self)
            }),
    {
        let idx = filter_prs(self.current_prs(), self.search_query.as_str());
        proof {
            lemma_filtered_in_range(idx@, current_list(*self), self.search_query@);
        }
        self.selected = if idx.len() == 0 { None } else { Some(0) };
        self.filtered_indices = idx;
    }

    /// Switches to another filter: search is cleared and the new list is shown
    /// from its first row. Switching to the active filter changes nothing.
    pub fn switch_filter(&mut self, filter: PrFilter)
        requires
            app_wf(*old(self)),
        ensures
            app_wf(*final(self)),
            old(self).pr_filter@ == filter@ ==> *final(self) == *old(self),
            old(self).pr_filter@ != filter@ ==> {
                &&& final(self).search_query@ == Seq::<char>::empty()
                &&& final(self).filtered_indices@ == Seq::new(list_of(*old(self), filter).len(), |i: int| i as usize)
                &&& *final(self) == (App {
                    pr_filter: filter,
                    search_mode: false,
                    search_query: final(self).search_query,
                    filtered_indices: final(self).filtered_indices,
                    selected: first_row(final(self).filtered_indices@),
                    ..*old(self)
                })
            },
    {
        if self.pr_filter != filter {
            self.pr_filter = filter;
            self.selected = None;
            self.filtered_indices = Vec::new();
            self.search_mode = false;
            self.search_query = String::new();
            self.refilter();
        }
    }

    /// Appends a character to the query and re-filters.
    pub fn search_push_char(&mut self, c: char)
        requires
            app_wf(*old(self)),
        ensures
            app_wf(*final(self)),
            final(self).search_query@ == old(self).search_query@.push(c),
            filtered_ok(final(self).filtered_indices@, current_list(*old(self)), final(self).search_query@),
            *final(self) == (App {
                search_query: final(self).search_query,
                filtered_indices: final(self).filtered_indices,
                selected: first_row(final(self).filtered_indices@),
                ..*old(self)
            }),
    {
        crate::text::push_char(&mut self.search_query, c);
        self.refilter();
    }

    /// Removes the last character of the query and re-filters.
    pub fn search_pop_char(&mut self)
        requires
            app_wf(*old(self)),
        ensures
            app_wf(*final(self)),
            final(self).search_query@ == drop_last_char(old(self).search_query@),
            filtered_ok(final(self).filtered_indices@, current_list(*old(self)), final(self).search_query@),
            *final(self) == (App {
                search_query: final(self).search_query,
                filtered_indices: final(self).filtered_indices,
                selected: first_row(final(self).filtered_indices@),
                ..*old(self)
            }),
    {
        self.search_query = pop_char(&self.search_query);
        self.refilter();
    }

    /// Leaves search mode; with `clear` the query is emptied and every row shown again.
    pub fn exit_search_mode(&mut self, clear: bool)
        requires
            app_wf(*old(self)),
        ensures
            app_wf(*final(self)),
            !clear ==> *final(self) == (App { search_mode: false, ..*old(self) }),
            clear ==> {
                &&& final(self).search_query@ == Seq::<char>::empty()
                &&& final(self).filtered_indices@ == Seq::new(current_list(*old(self)).len(), |i: int| i as usize)
                &&& *final(self) == (App {
                    search_mode: false,
                    search_query: final(self).search_query,
                    filtered_indices: final(self).filtered_indices,
                    selected: first_row(final(self).filtered_indices@),
                    ..*old(self)
                })
            },
    {
        self.search_mode = false;
        if clear {
            self.search_query = String::new();
            self.refilter();
        }
    }

    /// Marks a list as loading before its fetch is sent, and clears the error.
    pub fn start_fetch(&mut self, filter: &PrFilter)
        ensures
            *final(self) == (App {
                loading_my_prs: old(self).loading_my_prs || filter is MyPrs,
                loading_review_prs: old(self).loading_review_prs || filter is ReviewRequested,
                loading_labels_prs: old(self).loading_labels_prs || filter is Labels,
                error: None,
                show_error_popup: false,
                ..*old(self)
            }),
    {
        match filter {
            PrFilter::MyPrs => self.loading_my_prs = true,
            PrFilter::ReviewRequested => self.loading_review_prs = true,
            PrFilter::Labels(_) => self.loading_labels_prs = true,
        }
        self.error = None;
        self.show_error_popup = false;
    }

    /// Advances the spinner while something is loading.
    pub fn update_spinner(&mut self)
        requires
            app_wf(*old(self)),
        ensures
            app_wf(*final(self)),
            *final(self) == (App { spinner_idx: ((old(self).spinner_idx + 1) % (SPINNER_FRAME_COUNT as int)) as usize, ..*old(self) }),
    {
        self.spinner_idx = (self.spinner_idx + 1) % SPINNER_FRAME_COUNT;
    }
}

/// Pull request `k` is the first of the list with this number and a known head commit.
pub open spec fn first_with_head(prs: Seq<PullRequest>, n: u64, k: int) -> bool {
    &&& 0 <= k < prs.len()
    &&& prs[k].number == n
    &&& prs[k].head_sha is Some
    &&& forall|j: int| 0 <= j < k ==> !((#[trigger] prs[j]).number == n && prs[j].head_sha is Some)
}

/// Some pull request of the list has this number and a known head commit.
pub open spec fn resolves(prs: Seq<PullRequest>, n: u64) -> bool {
    exists|k: int| 0 <= k < prs.len() && (#[trigger] prs[k]).number == n && prs[k].head_sha is Some
}

fn find_with_head(prs: &Vec<PullRequest>, n: u64) -> (r: Option<usize>)
    ensures
        match r {
            Some(k) => first_with_head(prs@, n, k as int),
            None => !resolves(prs@, n),
        },
{
    let mut k: usize = 0;
    while k < prs.len()
        invariant
            k <= prs@.len(),
            forall|j: int| 0 <= j < k ==> !((#[trigger] prs@[j]).number == n && prs@[j].head_sha is Some),
        decreases prs@.len() - k,
    {
        if prs[k].number == n && prs[k].head_sha.is_some() {
            return Some(k);
        }
        k += 1;
    }
    None
}

/// The selection kept across a refresh of the shown rows: unchanged while it
/// still points at a row, else the last row; the first row when none was selected.
pub open spec fn kept_row(sel: Option<usize>, len: nat) -> Option<usize> {
    if len == 0 {
        None
    } else {
        match sel {
            Some(s) => if s < len { Some(s) } else { Some((len - 1) as usize) },
            None => Some(0usize),
        }
    }
}

/// The command that fetches the CI data of a pull request.
pub open spec fn is_actions_fetch(c: Command, p: PullRequest) -> bool {
    match c {
        Command::StartActionsFetch { owner, repo, pr_number, head_sha } => owner@ == p.repo_owner@
            && repo@ == p.repo_name@ && pr_number == p.number && p.head_sha is Some && head_sha@
            == p.head_sha->0@,
        _ => false,
    }
}

/// The cache key a fetched list is saved under: the repository of its first
/// pull request, else the current repository.
pub open spec fn save_key(prs: Seq<PullRequest>, owner: Option<String>, repo: Option<String>) -> Option<(Seq<char>, Seq<char>)> {
    if prs.len() > 0 {
        Some((prs[0].repo_owner@, prs[0].repo_name@))
    } else {
        match (owner, repo) {
            (Some(o), Some(r)) => Some((o@, r@)),
            _ => None,
        }
    }
}

impl App {
    /// Applies a pull-request fetch result. A success replaces the list of
    /// its filter kind and clears that kind's loading flag; when the list is
    /// shown, the rows are recomputed. Before that, a pull request awaited for
    /// its head commit that the list resolves gets its CI data fetched. The
    /// list is saved in the cache. An error is shown and clears every loading flag.
    #[verifier::rlimit(50)]
    pub fn handle_fetch_result(&mut self, result: FetchResult) -> (cmd: Option<Command>)
        requires
            app_wf(*old(self)),
        ensures
            app_wf(*final(self)),
            fetch_result_done(*old(self), *final(self), result, cmd),
    {
        match result {
            FetchResult::Success(new_prs, filter) => {
                let cmd = self.resolve_pending(&new_prs);
                self.save_fetched(&new_prs, &filter);
                self.replace_bucket(new_prs, filter);
                cmd
            },
            FetchResult::Error(e) => {
                self.error = Some(e);
                self.show_error_popup = true;
                self.loading_my_prs = false;
                self.loading_review_prs = false;
                self.loading_labels_prs = false;
                None
            },
        }
    }
}

impl App {
    /// Issues the CI fetch of the pull request awaited for its head commit,
    /// when the fetched list resolves it.
    fn resolve_pending(&mut self, new_prs: &Vec<PullRequest>) -> (cmd: Option<Command>)
        requires
            app_wf(*old(self)),
        ensures
            app_wf(*final(self)),
            match old(self).ci.pending_head_pr {
                Some(n) => if resolves(new_prs@, n) {
                    &&& final(self).ci.pending_head_pr is None
                    &&& cmd is Some
                    &&& exists|k: int| first_with_head(new_prs@, n, k) && is_actions_fetch(cmd->0, new_prs@[k])
                } else {
                    cmd is None && final(self).ci.pending_head_pr == Some(n)
                },
                None => cmd is None && final(self).ci.pending_head_pr is None,
            },
            *final(self) == (App { ci: final(self).ci, ..*old(self) }),
            final(self).ci == (CiState {
                pending_head_pr: final(self).ci.pending_head_pr,
                actions_loading: final(self).ci.actions_loading,
                actions_poll_enabled: final(self).ci.actions_poll_enabled,
                head_sha: final(self).ci.head_sha,
                ..old(self).ci
            }),
    {
        match self.ci.pending_head_pr {
            Some(n) => {
                match find_with_head(new_prs, n) {
                    Some(k) => {
                        let p = &new_prs[k];
                        let sha = match &p.head_sha {
                            Some(h) => h.clone(),
                            None => String::new(),
                        };
                        self.ci.pending_head_pr = None;
                        self.ci.actions_loading = true;
                        self.ci.actions_poll_enabled = true;
                        self.ci.head_sha = Some(sha.clone());
                        let c = Command::StartActionsFetch {
                            owner: p.repo_owner.clone(),
                            repo: p.repo_name.clone(),
                            pr_number: n,
                            head_sha: sha,
                        };
                        assert(is_actions_fetch(c, new_prs@[k as int]));
                        Some(c)
                    },
                    None => None,
                }
            },
            None => None,
        }
    }

    /// Saves a fetched list in the cache, under the repository of its first
    /// pull request, else the current repository; a refused write is dropped.
    fn save_fetched(&mut self, new_prs: &Vec<PullRequest>, filter: &PrFilter)
        requires
            app_wf(*old(self)),
        ensures
            app_wf(*final(self)),
            final(self).cache.labels@ == old(self).cache.labels@,
            final(self).cache.next_label_id == old(self).cache.next_label_id,
            final(self).cache.version == old(self).cache.version,
            match save_key(new_prs@, old(self).repo_owner, old(self).repo_name) {
                Some((o, r)) => saved_or_kept(old(self).cache, final(self).cache, new_prs@, o, r, *filter),
                None => final(self).cache.prs == old(self).cache.prs,
            },
            *final(self) == (App { cache: final(self).cache, ..*old(self) }),
    {
        let key: Option<(&str, &str)> = if new_prs.len() > 0 {
            Some((new_prs[0].repo_owner.as_str(), new_prs[0].repo_name.as_str()))
        } else {
            match (&self.repo_owner, &self.repo_name) {
                (Some(o), Some(r)) => Some((o.as_str(), r.as_str())),
                _ => None,
            }
        };
        match key {
            Some((o, r)) => {
                let _ = self.cache.save_cache(new_prs, o, r, filter);
            },
            None => {},
        }
    }

    /// Replaces the list of a filter kind wholesale and clears its loading
    /// flag; when that kind is shown the rows are recomputed, keeping the
    /// selection where it still points at a row.
    #[verifier::rlimit(100)]
    fn replace_bucket(&mut self, new_prs: Vec<PullRequest>, filter: PrFilter)
        requires
            app_wf(*old(self)),
        ensures
            app_wf(*final(self)),
            list_of(*final(self), filter) == new_prs@,
            filter is MyPrs ==> *final(self) == (App { my_prs: new_prs, loading_my_prs: false, filtered_indices: final(self).filtered_indices, selected: final(self).selected, ..*old(self) }),
            filter is ReviewRequested ==> *final(self) == (App { review_prs: new_prs, loading_review_prs: false, filtered_indices: final(self).filtered_indices, selected: final(self).selected, ..*old(self) }),
            filter is Labels ==> *final(self) == (App { labels_prs: new_prs, loading_labels_prs: false, filtered_indices: final(self).filtered_indices, selected: final(self).selected, ..*old(self) }),
            if same_kind(old(self).pr_filter, filter) {
                &&& filtered_ok(final(self).filtered_indices@, new_prs@, old(self).search_query@)
                &&& final(self).selected == kept_row(old(self).selected, final(self).filtered_indices@.len())
            } else {
                final(self).filtered_indices == old(self).filtered_indices && final(self).selected == old(self).selected
            },
    {
        let ghost np = new_prs@;
        let is_current = self.pr_filter.same_kind_as(&filter);
        match filter {
            PrFilter::MyPrs => {
                self.my_prs = new_prs;
                self.loading_my_prs = false;
            },
            PrFilter::ReviewRequested => {
                self.review_prs = new_prs;
                self.loading_review_prs = false;
            },
            PrFilter::Labels(_) => {
                self.labels_prs = new_prs;
                self.loading_labels_prs = false;
            },
        }
        if is_current {
            assert(current_list(*self) == np);
            let idx = filter_prs(self.current_prs(), self.search_query.as_str());
            proof {
                lemma_filtered_in_range(idx@, current_list(*self), self.search_query@);
            }
            let len = idx.len();
            self.selected = if len == 0 {
                None
            } else {
                match self.selected {
                    Some(s) => if s < len { Some(s) } else { Some(len - 1) },
                    None => Some(0),
                }
            };
            self.filtered_indices = idx;
        }
    }
}

/// A refetch command for the shown filter kind; the labels kind carries the configured labels.
pub open spec fn same_kind_filter_cmd(c: Command, app: App) -> bool {
    match c {
        Command::StartFetch(f) => same_kind(f, app.pr_filter) && (f is Labels ==> f@ == FilterView::Labels(label_names(app.configured_labels@))),
        _ => false,
    }
}

/// The cached rows after saving a fetched list under a key: the saved rows
/// when the save succeeds, else the rows as they were.
pub open spec fn saved_or_kept(old_cache: CacheStore, new_cache: CacheStore, prs: Seq<PullRequest>, o: Seq<char>, r: Seq<char>, f: PrFilter) -> bool {
    let s = crate::cache::saved(rows_view_of(old_cache), prs_view(prs), o, r, crate::types::filter_key(f));
    if s.1 {
        rows_view_of(new_cache) == s.0
    } else {
        new_cache.prs == old_cache.prs
    }
}

/// The rows of the cached pull-request table as plain values.
pub open spec fn rows_view_of(c: CacheStore) -> Seq<crate::cache::PrRow> {
    crate::cache::rows_view(c.prs@)
}

/// What `handle_fetch_result` leaves, as plain values.
pub open spec fn fetch_result_done(old: App, new: App, result: FetchResult, cmd: Option<Command>) -> bool {
    &&& match result {
        FetchResult::Success(new_prs, filter) => {
            &&& list_of(new, filter) == new_prs@
            &&& (filter is MyPrs ==> !new.loading_my_prs && new.review_prs == old.review_prs && new.labels_prs == old.labels_prs && new.loading_review_prs == old.loading_review_prs && new.loading_labels_prs == old.loading_labels_prs)
            &&& (filter is ReviewRequested ==> !new.loading_review_prs && new.my_prs == old.my_prs && new.labels_prs == old.labels_prs && new.loading_my_prs == old.loading_my_prs && new.loading_labels_prs == old.loading_labels_prs)
            &&& (filter is Labels ==> !new.loading_labels_prs && new.my_prs == old.my_prs && new.review_prs == old.review_prs && new.loading_my_prs == old.loading_my_prs && new.loading_review_prs == old.loading_review_prs)
            &&& (match old.ci.pending_head_pr {
                Some(n) => if resolves(new_prs@, n) {
                    &&& new.ci.pending_head_pr is None
                    &&& cmd is Some
                    &&& exists|k: int| first_with_head(new_prs@, n, k) && is_actions_fetch(cmd->0, new_prs@[k])
                } else {
                    cmd is None && new.ci.pending_head_pr == Some(n)
                },
                None => cmd is None && new.ci.pending_head_pr is None,
            })
            &&& if same_kind(old.pr_filter, filter) {
                &&& filtered_ok(new.filtered_indices@, new_prs@, old.search_query@)
                &&& new.selected == kept_row(old.selected, new.filtered_indices@.len())
            } else {
                new.filtered_indices == old.filtered_indices && new.selected == old.selected
            }
            &&& new == (App {
                my_prs: new.my_prs,
                review_prs: new.review_prs,
                labels_prs: new.labels_prs,
                loading_my_prs: new.loading_my_prs,
                loading_review_prs: new.loading_review_prs,
                loading_labels_prs: new.loading_labels_prs,
                filtered_indices: new.filtered_indices,
                selected: new.selected,
                cache: new.cache,
                ci: new.ci,
                ..old
            })
            &&& new.ci == (CiState {
                pending_head_pr: new.ci.pending_head_pr,
                actions_loading: new.ci.actions_loading,
                actions_poll_enabled: new.ci.actions_poll_enabled,
                head_sha: new.ci.head_sha,
                ..old.ci
            })
            &&& new.pr_filter == old.pr_filter
            &&& new.search_query == old.search_query
            &&& new.error == old.error
            &&& new.show_error_popup == old.show_error_popup
            &&& new.cache.labels@ == old.cache.labels@
            &&& match save_key(new_prs@, old.repo_owner, old.repo_name) {
                Some((o, r)) => saved_or_kept(old.cache, new.cache, new_prs@, o, r, filter),
                None => new.cache.prs == old.cache.prs,
            }
        },
        FetchResult::Error(e) => {
            &&& cmd is None
            &&& new.error == Some(e)
            &&& new == (App {
                error: Some(e),
                show_error_popup: true,
                loading_my_prs: false,
                loading_review_prs: false,
                loading_labels_prs: false,
                ..old
            })
        }
    }
}

} // verus!
