//! The transition function: one message in, the new state and at most one command out.

use vstd::prelude::*;
use vstd::string::*;
use crate::engine::{
    App, Command, FetchResult, Message, app_wf, current_list, label_names, first_row, next_row,
    previous_row, list_of, same_kind_filter_cmd,
};
use crate::models::{PullRequest, LabelFilter, labels_view, opt_view};
use crate::text::{trim, trimmed_of, push_decimal, decimal};
use crate::views::{
    StepMove, open_workflows_done, close_workflows_done, move_job_done, actions_fetched_done, poll_actions_done,
    open_job_logs_done, close_job_logs_done, job_logs_fetched_done, move_step_done, open_step_in_editor_done,
    open_preview_done, preview_fetched_done, preview_up_done, preview_section_done,
};
use crate::search::filtered_ok;
use crate::types::{PrFilter, FilterView, strings_view, copy_strings};

verus! {

/// The web address of a pull request.
pub open spec fn pr_url(p: PullRequest) -> Seq<char> {
    "https://github.com/"@ + p.repo_owner@ + "/"@ + p.repo_name@ + "/pull/"@ + decimal(p.number as nat)
}

fn url_of(p: &PullRequest) -> (r: String)
    ensures
        r@ == pr_url(*p),
{
    let mut s = String::from_str("https://github.com/");
    s.append(p.repo_owner.as_str());
    s.append("/");
    s.append(p.repo_name.as_str());
    s.append("/pull/");
    push_decimal(&mut s, p.number);
    s
}

/// A selection kept after its list changed: unchanged while it points at a
/// row, else the last row, or none for an empty list.
pub open spec fn clamped_row(sel: Option<usize>, len: nat) -> Option<usize> {
    match sel {
        Some(s) => if s < len { Some(s) } else if len == 0 { None } else { Some((len - 1) as usize) },
        None => None,
    }
}

/// The configured labels were read again from the store for the current
/// repository, and their selection kept within the list.
pub open spec fn labels_reloaded(old: App, new: App) -> bool {
    &&& match (old.repo_owner, old.repo_name) {
        (Some(o), Some(n)) => crate::cache::shows_labels(new.configured_labels@, labels_view(new.cache.labels@), o@, n@),
        _ => new.configured_labels == old.configured_labels,
    }
    &&& new.labels_selected == clamped_row(old.labels_selected, new.configured_labels@.len())
}

/// After a successful label change: the labels tab, when shown, is refetched.
pub open spec fn refetch_if_labels(old: App, new: App, cmd: Option<Command>) -> bool {
    (cmd is Some <==> old.pr_filter is Labels) && (cmd is Some ==> same_kind_filter_cmd(cmd->0, new))
}

/// Adding the typed label: a blank input changes nothing; else the trimmed
/// name is saved for this repository (or globally), the labels are reloaded,
/// the popup closes and the labels tab is refetched when shown; a refused
/// save is shown as an error.
pub open spec fn add_label_done(old: App, new: App, cmd: Option<Command>) -> bool {
    let name = trimmed_of(old.label_input@);
    let o = if old.label_scope_global { None } else { opt_view(old.repo_owner) };
    let r = if old.label_scope_global { None } else { opt_view(old.repo_name) };
    let out = crate::cache::label_save_outcome(labels_view(old.cache.labels@), old.cache.next_label_id, name, o, r);
    if name.len() == 0 {
        cmd is None && new == old
    } else {
        &&& labels_view(new.cache.labels@) == out.0
        &&& if out.1 {
            &&& labels_reloaded(old, new)
            &&& !new.show_add_label_popup
            &&& new.label_input@ == Seq::<char>::empty()
            &&& refetch_if_labels(old, new, cmd)
        } else {
            cmd is None && new.show_error_popup && new.error is Some
        }
    }
}

/// Deleting the selected label filter: without a selection nothing changes;
/// else the filter goes from the store, the labels are reloaded and the
/// labels tab is refetched when shown.
pub open spec fn delete_label_done(old: App, new: App, cmd: Option<Command>) -> bool {
    match old.labels_selected {
        None => cmd is None && new == old,
        Some(s) => {
            &&& labels_view(new.cache.labels@) == labels_view(old.cache.labels@).filter(
                crate::cache::id_kept(old.configured_labels@[s as int].id),
            )
            &&& labels_reloaded(old, new)
            &&& refetch_if_labels(old, new, cmd)
        },
    }
}

impl App {
    /// The command that refetches the shown list; the labels tab asks for the configured labels.
    pub fn refresh_command(&self) -> (r: Command)
        ensures
            same_kind_filter_cmd(r, *self),
    {
        match &self.pr_filter {
            PrFilter::MyPrs => Command::StartFetch(PrFilter::MyPrs),
            PrFilter::ReviewRequested => Command::StartFetch(PrFilter::ReviewRequested),
            PrFilter::Labels(_) => Command::StartFetch(PrFilter::Labels(self.get_active_labels())),
        }
    }

    /// Re-reads the label filters of the current repository from the cache.
    fn reload_labels(&mut self)
        requires
            app_wf(*old(self)),
        ensures
            app_wf(*final(self)),
            *final(self) == (App {
                configured_labels: final(self).configured_labels,
                labels_selected: final(self).labels_selected,
                ..*old(self)
            }),
            labels_reloaded(*old(self), *final(self)),
    {
        match (&self.repo_owner, &self.repo_name) {
            (Some(o), Some(r)) => {
                self.configured_labels = self.cache.load_label_filters(o.as_str(), r.as_str());
            },
            _ => {},
        }
        match self.labels_selected {
            Some(s) => if s >= self.configured_labels.len() {
                self.labels_selected = if self.configured_labels.len() == 0 {
                    None
                } else {
                    Some(self.configured_labels.len() - 1)
                };
            },
            None => {},
        }
    }

    /// Saves the typed label (trimmed), for this repository or globally, and
    /// refetches the labels tab when it is shown. A blank input does nothing.
    pub fn add_label(&mut self) -> (cmd: Option<Command>)
        requires
            app_wf(*old(self)),
        ensures
            app_wf(*final(self)),
            add_label_done(*old(self), *final(self), cmd),
    {
        let name = trim(self.label_input.as_str());
        if name.unicode_len() == 0 {
            return None;
        }
        let res = if self.label_scope_global {
            self.cache.save_label_filter(name.as_str(), None, None)
        } else {
            let o = match &self.repo_owner {
                Some(s) => Some(s.as_str()),
                None => None,
            };
            let r = match &self.repo_name {
                Some(s) => Some(s.as_str()),
                None => None,
            };
            self.cache.save_label_filter(name.as_str(), o, r)
        };
        match res {
            Err(e) => {
                let mut msg = String::from_str("Failed to save label: ");
                msg.append(e.describe());
                self.error = Some(msg);
                self.show_error_popup = true;
                return None;
            },
            Ok(()) => {},
        }
        self.reload_labels();
        self.show_add_label_popup = false;
        self.label_input = String::new();
        match &self.pr_filter {
            PrFilter::Labels(_) => Some(self.refresh_command()),
            _ => None,
        }
    }

    /// Deletes the selected label filter and refetches the labels tab when it is shown.
    pub fn delete_selected_label(&mut self) -> (cmd: Option<Command>)
        requires
            app_wf(*old(self)),
        ensures
            app_wf(*final(self)),
            delete_label_done(*old(self), *final(self), cmd),
    {
        match self.labels_selected {
            Some(s) => {
                let id = self.configured_labels[s].id;
                self.cache.delete_label_filter(id);
                self.reload_labels();
                match &self.pr_filter {
                    PrFilter::Labels(_) => Some(self.refresh_command()),
                    _ => None,
                }
            },
            None => None,
        }
    }
}

/// The last row of a list of `len` rows, if any.
pub open spec fn last_row(len: nat) -> Option<usize> {
    if len == 0 { None } else { Some((len - 1) as usize) }
}

/// Whether a message belongs to the workflows, job-logs or preview views.
pub open spec fn is_view_message(msg: Message) -> bool {
    match msg {
        Message::OpenWorkflows => true,
        Message::CloseWorkflows => true,
        Message::JobsNext => true,
        Message::JobsPrevious => true,
        Message::ActionsFetched(..) => true,
        Message::PollActions => true,
        Message::OpenJobLogs => true,
        Message::CloseJobLogs => true,
        Message::JobLogsFetched(..) => true,
        Message::StepNext => true,
        Message::StepPrevious => true,
        Message::StepToggle => true,
        Message::OpenStepInEditor => true,
        Message::OpenPreview => true,
        Message::ClosePreview => true,
        Message::PreviewFetched { .. } => true,
        Message::PreviewScrollDown => true,
        Message::PreviewScrollUp => true,
        Message::PreviewPageDown => true,
        Message::PreviewPageUp => true,
        Message::PreviewNextSection => true,
        Message::PreviewPreviousSection => true,
        Message::SetPreviewHeight(..) => true,
        _ => false,
    }
}

fn view_message(msg: &Message) -> (r: bool)
    ensures
        r == is_view_message(*msg),
{
    match msg {
        Message::OpenWorkflows => true,
        Message::CloseWorkflows => true,
        Message::JobsNext => true,
        Message::JobsPrevious => true,
        Message::ActionsFetched(..) => true,
        Message::PollActions => true,
        Message::OpenJobLogs => true,
        Message::CloseJobLogs => true,
        Message::JobLogsFetched(..) => true,
        Message::StepNext => true,
        Message::StepPrevious => true,
        Message::StepToggle => true,
        Message::OpenStepInEditor => true,
        Message::OpenPreview => true,
        Message::ClosePreview => true,
        Message::PreviewFetched { .. } => true,
        Message::PreviewScrollDown => true,
        Message::PreviewScrollUp => true,
        Message::PreviewPageDown => true,
        Message::PreviewPageUp => true,
        Message::PreviewNextSection => true,
        Message::PreviewPreviousSection => true,
        Message::SetPreviewHeight(..) => true,
        _ => false,
    }
}

/// Whether a message belongs to the popups, labels or checkout.
pub open spec fn is_popup_message(msg: Message) -> bool {
    match msg {
        Message::OpenSelected => true,
        Message::PromptCheckout => true,
        Message::ConfirmCheckout => true,
        Message::CancelCheckout => true,
        Message::CheckoutFinished(..) => true,
        Message::ToggleHelp => true,
        Message::DismissHelp => true,
        Message::DismissError => true,
        Message::OpenLabelsPopup => true,
        Message::CloseLabelsPopup => true,
        Message::OpenAddLabelPopup => true,
        Message::CloseAddLabelPopup => true,
        Message::LabelInput(..) => true,
        Message::LabelBackspace => true,
        Message::ToggleLabelScope => true,
        Message::AddLabel => true,
        Message::DeleteSelectedLabel => true,
        Message::LabelsNext => true,
        Message::LabelsPrevious => true,
        _ => false,
    }
}

fn popup_message(msg: &Message) -> (r: bool)
    ensures
        r == is_popup_message(*msg),
{
    match msg {
        Message::OpenSelected => true,
        Message::PromptCheckout => true,
        Message::ConfirmCheckout => true,
        Message::CancelCheckout => true,
        Message::CheckoutFinished(..) => true,
        Message::ToggleHelp => true,
        Message::DismissHelp => true,
        Message::DismissError => true,
        Message::OpenLabelsPopup => true,
        Message::CloseLabelsPopup => true,
        Message::OpenAddLabelPopup => true,
        Message::CloseAddLabelPopup => true,
        Message::LabelInput(..) => true,
        Message::LabelBackspace => true,
        Message::ToggleLabelScope => true,
        Message::AddLabel => true,
        Message::DeleteSelectedLabel => true,
        Message::LabelsNext => true,
        Message::LabelsPrevious => true,
        _ => false,
    }
}

#[verifier::rlimit(100)]
#[verifier::spinoff_prover]
fn update_popups(app: &mut App, msg: Message) -> (cmd: Option<Command>)
    requires
        app_wf(*old(app)),
        !is_view_message(msg),
        is_popup_message(msg),
    ensures
        app_wf(*final(app)),
        match msg {
            Message::AddLabel => add_label_done(*old(app), *final(app), cmd),
            Message::DeleteSelectedLabel => delete_label_done(*old(app), *final(app), cmd),
            Message::CheckoutFinished(Ok(())) => cmd == Some(Command::ExitAfterCheckout),
            Message::CheckoutFinished(Err(e)) => cmd is None && final(app).error == Some(e) && final(app).show_error_popup
                && final(app).show_checkout_popup == old(app).show_checkout_popup
                && final(app).pending_checkout_branch == old(app).pending_checkout_branch,
            _ => true,
        },
{
    match msg {
        Message::OpenSelected => {
            match app.selected_pr() {
                Some(p) => Some(Command::OpenUrl(url_of(p))),
                None => None,
            }
        },
        Message::PromptCheckout => {
            let branch = match app.selected_pr() {
                Some(p) => Some(p.branch.clone()),
                None => None,
            };
            match branch {
                Some(b) => {
                    app.pending_checkout_branch = Some(b);
                    app.show_checkout_popup = true;
                },
                None => {},
            }
            None
        },
        Message::ConfirmCheckout => {
            match &app.pending_checkout_branch {
                Some(b) => Some(Command::Checkout(b.clone())),
                None => None,
            }
        },
        Message::CancelCheckout => {
            app.show_checkout_popup = false;
            app.pending_checkout_branch = None;
            None
        },
        Message::CheckoutFinished(result) => {
            match result {
                Ok(()) => Some(Command::ExitAfterCheckout),
                Err(e) => {
                    app.error = Some(e);
                    app.show_error_popup = true;
                    None
                },
            }
        },
        Message::ToggleHelp => {
            app.show_help_popup = !app.show_help_popup;
            None
        },
        Message::DismissHelp => {
            app.show_help_popup = false;
            None
        },
        Message::DismissError => {
            app.show_error_popup = false;
            None
        },
        Message::OpenLabelsPopup => {
            app.show_labels_popup = true;
            app.labels_selected = if app.configured_labels.len() == 0 { None } else { Some(0) };
            None
        },
        Message::CloseLabelsPopup => {
            app.show_labels_popup = false;
            None
        },
        Message::OpenAddLabelPopup => {
            app.show_add_label_popup = true;
            app.label_input = String::new();
            app.label_scope_global = false;
            None
        },
        Message::CloseAddLabelPopup => {
            app.show_add_label_popup = false;
            app.label_input = String::new();
            None
        },
        Message::LabelInput(c) => {
            crate::text::push_char(&mut app.label_input, c);
            None
        },
        Message::LabelBackspace => {
            app.label_input = crate::engine::pop_string(&app.label_input);
            None
        },
        Message::ToggleLabelScope => {
            app.label_scope_global = !app.label_scope_global;
            None
        },
        Message::AddLabel => app.add_label(),
        Message::DeleteSelectedLabel => app.delete_selected_label(),
        Message::LabelsNext => {
            app.labels_selected = crate::engine::next_of_pub(app.labels_selected, app.configured_labels.len());
            None
        },
        Message::LabelsPrevious => {
            app.labels_selected = crate::engine::previous_of_pub(app.labels_selected, app.configured_labels.len());
            None
        },
        _ => None,
    }
}

#[verifier::rlimit(100)]
#[verifier::spinoff_prover]
fn update_lists(app: &mut App, msg: Message) -> (cmd: Option<Command>)
    requires
        app_wf(*old(app)),
        !is_view_message(msg),
        !is_popup_message(msg),
    ensures
        app_wf(*final(app)),
        match msg {
            Message::NextItem => cmd is None && *final(app) == (App {
                selected: next_row(old(app).selected, old(app).filtered_indices@.len()),
                ..*old(app)
            }),
            Message::PreviousItem => cmd is None && *final(app) == (App {
                selected: previous_row(old(app).selected, old(app).filtered_indices@.len()),
                ..*old(app)
            }),
            Message::GoToTop => cmd is None && *final(app) == (App {
                selected: if old(app).filtered_indices@.len() == 0 { old(app).selected } else { Some(0usize) },
                ..*old(app)
            }),
            Message::GoToBottom => cmd is None && *final(app) == (App {
                selected: if old(app).filtered_indices@.len() == 0 { old(app).selected } else { last_row(old(app).filtered_indices@.len()) },
                ..*old(app)
            }),
            Message::SwitchTab(f) => cmd is None && (old(app).pr_filter@ != f@ ==> {
                &&& final(app).pr_filter == f
                &&& final(app).search_query@ == Seq::<char>::empty()
                &&& !final(app).search_mode
                &&& final(app).filtered_indices@ == Seq::new(list_of(*old(app), f).len(), |i: int| i as usize)
                &&& final(app).selected == first_row(final(app).filtered_indices@)
            }) && (old(app).pr_filter@ == f@ ==> *final(app) == *old(app)),
            Message::Refresh => cmd is Some && same_kind_filter_cmd(cmd->0, *old(app)) && *final(app) == *old(app),
            Message::SearchInput(c) => cmd is None && final(app).search_query@ == old(app).search_query@.push(c)
                && filtered_ok(final(app).filtered_indices@, current_list(*old(app)), final(app).search_query@)
                && final(app).selected == first_row(final(app).filtered_indices@),
            Message::FetchComplete(r) => crate::engine::fetch_result_done(*old(app), *final(app), r, cmd),
            Message::Quit => cmd == Some(Command::Quit),
            _ => true,
        },
{
    match msg {
        Message::NextItem => {
            app.next_item();
            None
        },
        Message::PreviousItem => {
            app.previous_item();
            None
        },
        Message::GoToTop => {
            if app.filtered_indices.len() > 0 {
                app.selected = Some(0);
            }
            None
        },
        Message::GoToBottom => {
            if app.filtered_indices.len() > 0 {
                app.selected = Some(app.filtered_indices.len() - 1);
            }
            None
        },
        Message::SwitchTab(f) => {
            app.switch_filter(f);
            None
        },
        Message::Refresh => Some(app.refresh_command()),
        Message::EnterSearchMode => {
            app.search_mode = true;
            None
        },
        Message::ExitSearchMode { clear } => {
            app.exit_search_mode(clear);
            None
        },
        Message::SearchInput(c) => {
            app.search_push_char(c);
            None
        },
        Message::SearchBackspace => {
            app.search_pop_char();
            None
        },
        Message::FetchComplete(result) => app.handle_fetch_result(result),
        Message::Tick => {
            if app.loading_my_prs || app.loading_review_prs || app.loading_labels_prs {
                app.update_spinner();
            }
            None
        },
        Message::Quit => Some(Command::Quit),
        _ => None,
    }
}

fn update_main(app: &mut App, msg: Message) -> (cmd: Option<Command>)
    requires
        app_wf(*old(app)),
        !is_view_message(msg),
    ensures
        app_wf(*final(app)),
        match msg {
            Message::NextItem => cmd is None && *final(app) == (App {
                selected: next_row(old(app).selected, old(app).filtered_indices@.len()),
                ..*old(app)
            }),
            Message::PreviousItem => cmd is None && *final(app) == (App {
                selected: previous_row(old(app).selected, old(app).filtered_indices@.len()),
                ..*old(app)
            }),
            Message::GoToTop => cmd is None && *final(app) == (App {
                selected: if old(app).filtered_indices@.len() == 0 { old(app).selected } else { Some(0usize) },
                ..*old(app)
            }),
            Message::GoToBottom => cmd is None && *final(app) == (App {
                selected: if old(app).filtered_indices@.len() == 0 { old(app).selected } else { last_row(old(app).filtered_indices@.len()) },
                ..*old(app)
            }),
            Message::SwitchTab(f) => cmd is None && (old(app).pr_filter@ != f@ ==> {
                &&& final(app).pr_filter == f
                &&& final(app).search_query@ == Seq::<char>::empty()
                &&& !final(app).search_mode
                &&& final(app).filtered_indices@ == Seq::new(list_of(*old(app), f).len(), |i: int| i as usize)
                &&& final(app).selected == first_row(final(app).filtered_indices@)
            }) && (old(app).pr_filter@ == f@ ==> *final(app) == *old(app)),
            Message::Refresh => cmd is Some && same_kind_filter_cmd(cmd->0, *old(app)) && *final(app) == *old(app),
            Message::SearchInput(c) => cmd is None && final(app).search_query@ == old(app).search_query@.push(c)
                && filtered_ok(final(app).filtered_indices@, current_list(*old(app)), final(app).search_query@)
                && final(app).selected == first_row(final(app).filtered_indices@),
            Message::FetchComplete(r) => crate::engine::fetch_result_done(*old(app), *final(app), r, cmd),
            Message::AddLabel => add_label_done(*old(app), *final(app), cmd),
            Message::DeleteSelectedLabel => delete_label_done(*old(app), *final(app), cmd),
            Message::CheckoutFinished(Ok(())) => cmd == Some(Command::ExitAfterCheckout),
            Message::CheckoutFinished(Err(e)) => cmd is None && final(app).error == Some(e) && final(app).show_error_popup
                && final(app).show_checkout_popup == old(app).show_checkout_popup
                && final(app).pending_checkout_branch == old(app).pending_checkout_branch,
            Message::Quit => cmd == Some(Command::Quit),
            _ => true,
        },
{
    if popup_message(&msg) {
        update_popups(app, msg)
    } else {
        update_lists(app, msg)
    }
}

#[verifier::rlimit(100)]
#[verifier::spinoff_prover]
fn update_views(app: &mut App, msg: Message) -> (cmd: Option<Command>)
    requires
        app_wf(*old(app)),
        is_view_message(msg),
    ensures
        app_wf(*final(app)),
        match msg {
            Message::OpenWorkflows => open_workflows_done(*old(app), *final(app), cmd),
            Message::CloseWorkflows => cmd is None && close_workflows_done(*old(app), *final(app)),
            Message::JobsNext => cmd is None && move_job_done(*old(app), *final(app), true),
            Message::JobsPrevious => cmd is None && move_job_done(*old(app), *final(app), false),
            Message::ActionsFetched(n, r) => cmd is None && actions_fetched_done(*old(app), *final(app), n, r),
            Message::PollActions => poll_actions_done(*old(app), *final(app), cmd),
            Message::OpenJobLogs => open_job_logs_done(*old(app), *final(app), cmd),
            Message::CloseJobLogs => cmd is None && close_job_logs_done(*old(app), *final(app)),
            Message::JobLogsFetched(id, r) => cmd is None && job_logs_fetched_done(*old(app), *final(app), id, r),
            Message::StepNext => cmd is None && move_step_done(*old(app), *final(app), StepMove::Next),
            Message::StepPrevious => cmd is None && move_step_done(*old(app), *final(app), StepMove::Previous),
            Message::StepToggle => cmd is None && move_step_done(*old(app), *final(app), StepMove::Toggle),
            Message::OpenStepInEditor => open_step_in_editor_done(*old(app), cmd) && *final(app) == *old(app),
            Message::OpenPreview => open_preview_done(*old(app), *final(app), cmd),
            Message::ClosePreview => cmd is None && !final(app).preview.show_preview,
            Message::PreviewFetched { pr_number, result, body_lines } => cmd is None && preview_fetched_done(
                *old(app), *final(app), pr_number, result, body_lines),
            Message::PreviewScrollUp => cmd is None && preview_up_done(*old(app), *final(app), 1),
            Message::PreviewPageUp => cmd is None && preview_up_done(*old(app), *final(app), old(app).preview.preview_height),
            Message::PreviewNextSection => cmd is None && preview_section_done(*old(app), *final(app), true),
            Message::PreviewPreviousSection => cmd is None && preview_section_done(*old(app), *final(app), false),
            Message::SetPreviewHeight(h) => cmd is None && final(app).preview.preview_height == h,
            Message::PreviewScrollDown => cmd is None && final(app).preview.preview_scroll == crate::layout::scrolled_down(
                old(app).preview.preview_scroll as nat, 1, old(app).preview.preview_total_lines as nat,
                old(app).preview.preview_height as nat),
            Message::PreviewPageDown => cmd is None && final(app).preview.preview_scroll == crate::layout::scrolled_down(
                old(app).preview.preview_scroll as nat, old(app).preview.preview_height as nat,
                old(app).preview.preview_total_lines as nat, old(app).preview.preview_height as nat),
            _ => true,
        },
{
    match msg {
        Message::OpenWorkflows => app.open_workflows(),
        Message::CloseWorkflows => {
            app.close_workflows();
            None
        },
        Message::JobsNext => {
            app.move_job(true);
            None
        },
        Message::JobsPrevious => {
            app.move_job(false);
            None
        },
        Message::ActionsFetched(n, result) => {
            app.actions_fetched(n, result);
            None
        },
        Message::OpenJobLogs => app.open_job_logs(),
        Message::PollActions => app.poll_actions(),
        Message::CloseJobLogs => {
            app.close_job_logs();
            None
        },
        Message::JobLogsFetched(id, result) => {
            app.job_logs_fetched(id, result);
            None
        },
        Message::StepNext => {
            app.move_step(StepMove::Next);
            None
        },
        Message::StepPrevious => {
            app.move_step(StepMove::Previous);
            None
        },
        Message::StepToggle => {
            app.move_step(StepMove::Toggle);
            None
        },
        Message::OpenStepInEditor => app.open_step_in_editor(),
        Message::OpenPreview => app.open_preview(),
        Message::ClosePreview => {
            app.preview.show_preview = false;
            None
        },
        Message::PreviewFetched { pr_number, result, body_lines } => {
            app.preview_fetched(pr_number, result, body_lines);
            None
        },
        Message::PreviewScrollDown => {
            app.preview_down(1);
            None
        },
        Message::PreviewScrollUp => {
            app.preview_up(1);
            None
        },
        Message::PreviewPageDown => {
            let h = app.preview.preview_height;
            app.preview_down(h);
            None
        },
        Message::PreviewPageUp => {
            let h = app.preview.preview_height;
            app.preview_up(h);
            None
        },
        Message::PreviewNextSection => {
            app.preview_section(true);
            None
        },
        Message::PreviewPreviousSection => {
            app.preview_section(false);
            None
        },
        Message::SetPreviewHeight(h) => {
            app.preview.preview_height = h;
            None
        },
        _ => None,
    }
}

/// Applies one message to the state and returns the command it asks for, if any.
pub fn update(app: &mut App, msg: Message) -> (cmd: Option<Command>)
    requires
        app_wf(*old(app)),
    ensures
        app_wf(*final(app)),
        match msg {
            Message::NextItem => cmd is None && *final(app) == (App {
                selected: next_row(old(app).selected, old(app).filtered_indices@.len()),
                ..*old(app)
            }),
            Message::PreviousItem => cmd is None && *final(app) == (App {
                selected: previous_row(old(app).selected, old(app).filtered_indices@.len()),
                ..*old(app)
            }),
            Message::GoToTop => cmd is None && *final(app) == (App {
                selected: if old(app).filtered_indices@.len() == 0 { old(app).selected } else { Some(0usize) },
                ..*old(app)
            }),
            Message::GoToBottom => cmd is None && *final(app) == (App {
                selected: if old(app).filtered_indices@.len() == 0 { old(app).selected } else { last_row(old(app).filtered_indices@.len()) },
                ..*old(app)
            }),
            Message::SwitchTab(f) => cmd is None && (old(app).pr_filter@ != f@ ==> {
                &&& final(app).pr_filter == f
                &&& final(app).search_query@ == Seq::<char>::empty()
                &&& !final(app).search_mode
                &&& final(app).filtered_indices@ == Seq::new(list_of(*old(app), f).len(), |i: int| i as usize)
                &&& final(app).selected == first_row(final(app).filtered_indices@)
            }) && (old(app).pr_filter@ == f@ ==> *final(app) == *old(app)),
            Message::Refresh => cmd is Some && same_kind_filter_cmd(cmd->0, *old(app)) && *final(app) == *old(app),
            Message::SearchInput(c) => cmd is None && final(app).search_query@ == old(app).search_query@.push(c)
                && filtered_ok(final(app).filtered_indices@, current_list(*old(app)), final(app).search_query@)
                && final(app).selected == first_row(final(app).filtered_indices@),
            Message::FetchComplete(r) => crate::engine::fetch_result_done(*old(app), *final(app), r, cmd),
            Message::AddLabel => add_label_done(*old(app), *final(app), cmd),
            Message::DeleteSelectedLabel => delete_label_done(*old(app), *final(app), cmd),
            Message::CheckoutFinished(Ok(())) => cmd == Some(Command::ExitAfterCheckout),
            Message::CheckoutFinished(Err(e)) => cmd is None && final(app).error == Some(e) && final(app).show_error_popup
                && final(app).show_checkout_popup == old(app).show_checkout_popup
                && final(app).pending_checkout_branch == old(app).pending_checkout_branch,
            Message::Quit => cmd == Some(Command::Quit),
            Message::OpenWorkflows => open_workflows_done(*old(app), *final(app), cmd),
            Message::CloseWorkflows => cmd is None && close_workflows_done(*old(app), *final(app)),
            Message::JobsNext => cmd is None && move_job_done(*old(app), *final(app), true),
            Message::JobsPrevious => cmd is None && move_job_done(*old(app), *final(app), false),
            Message::ActionsFetched(n, r) => cmd is None && actions_fetched_done(*old(app), *final(app), n, r),
            Message::PollActions => poll_actions_done(*old(app), *final(app), cmd),
            Message::OpenJobLogs => open_job_logs_done(*old(app), *final(app), cmd),
            Message::CloseJobLogs => cmd is None && close_job_logs_done(*old(app), *final(app)),
            Message::JobLogsFetched(id, r) => cmd is None && job_logs_fetched_done(*old(app), *final(app), id, r),
            Message::StepNext => cmd is None && move_step_done(*old(app), *final(app), StepMove::Next),
            Message::StepPrevious => cmd is None && move_step_done(*old(app), *final(app), StepMove::Previous),
            Message::StepToggle => cmd is None && move_step_done(*old(app), *final(app), StepMove::Toggle),
            Message::OpenStepInEditor => open_step_in_editor_done(*old(app), cmd) && *final(app) == *old(app),
            Message::OpenPreview => open_preview_done(*old(app), *final(app), cmd),
            Message::ClosePreview => cmd is None && !final(app).preview.show_preview,
            Message::PreviewFetched { pr_number, result, body_lines } => cmd is None && preview_fetched_done(
                *old(app), *final(app), pr_number, result, body_lines),
            Message::PreviewScrollUp => cmd is None && preview_up_done(*old(app), *final(app), 1),
            Message::PreviewPageUp => cmd is None && preview_up_done(*old(app), *final(app), old(app).preview.preview_height),
            Message::PreviewNextSection => cmd is None && preview_section_done(*old(app), *final(app), true),
            Message::PreviewPreviousSection => cmd is None && preview_section_done(*old(app), *final(app), false),
            Message::SetPreviewHeight(h) => cmd is None && final(app).preview.preview_height == h,
            Message::PreviewScrollDown => cmd is None && final(app).preview.preview_scroll == crate::layout::scrolled_down(
                old(app).preview.preview_scroll as nat, 1, old(app).preview.preview_total_lines as nat,
                old(app).preview.preview_height as nat),
            Message::PreviewPageDown => cmd is None && final(app).preview.preview_scroll == crate::layout::scrolled_down(
                old(app).preview.preview_scroll as nat, old(app).preview.preview_height as nat,
                old(app).preview.preview_total_lines as nat, old(app).preview.preview_height as nat),
            _ => true,
        },
{
    if view_message(&msg) {
        update_views(app, msg)
    } else {
        update_main(app, msg)
    }
}

} // verus!
