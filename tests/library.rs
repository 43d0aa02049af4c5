use ghui::output::step_output_text;
use ghui::cache::{CacheError, CacheStore, CachedPr};
use ghui::ci::{
    ActionsData, AnnotationLevel, CheckAnnotation, JobStep, WorkflowConclusion, WorkflowJob,
    WorkflowRun, WorkflowStatus,
};
use ghui::circleci::{
    extract_job_number_from_url, get_project_slug, is_circleci_configured, is_circleci_url,
    parse_circleci_conclusion, parse_circleci_status,
};
use ghui::git::parse_github_url;
use ghui::graphql::{
    collect_page, continue_paging, Author, CommitConnection, CommitData, CommitNode, PageInfo,
    SearchNode, StatusCheckRollup,
};
use ghui::layout::{calculate_preview_positions, scroll_down, truncate_string};
use ghui::search::filter_prs;
use ghui::steps::{build_job_logs, build_job_steps, ActionRecord, OutputFetch, StepCursor, StepRecord};
use ghui::types::CACHE_VERSION;
use ghui::{update, App, CiStatus, Command, FetchResult, LabelFilter, Message, PrFilter, PullRequest};

fn pr(number: u64, title: &str, author: &str, head: Option<&str>) -> PullRequest {
    PullRequest {
        number,
        title: title.to_string(),
        branch: format!("branch-{}", number),
        repo_owner: "acme".to_string(),
        repo_name: "widgets".to_string(),
        ci_status: CiStatus::Success,
        author: author.to_string(),
        head_sha: head.map(|h| h.to_string()),
    }
}

fn empty_store() -> CacheStore {
    CacheStore::open(Some(CACHE_VERSION), Vec::new(), Vec::new())
}

fn app() -> App {
    App::new(Some("acme".to_string()), Some("widgets".to_string()), empty_store(), false)
}

fn action(status: &str, exit: Option<i32>, out: &str) -> ActionRecord {
    ActionRecord {
        status: Some(status.to_string()),
        exit_code: exit,
        output: OutputFetch::Fetched(out.to_string()),
    }
}

#[test]
fn filter_empty_query_keeps_every_index_in_order() {
    let prs = vec![pr(3, "a", "x", None), pr(1, "b", "y", None), pr(2, "c", "z", None)];
    assert_eq!(filter_prs(&prs, ""), vec![0, 1, 2]);
    assert_eq!(filter_prs(&Vec::new(), ""), Vec::<usize>::new());
}

#[test]
fn filter_keeps_only_matching_haystacks() {
    let prs = vec![
        pr(10, "Add caching layer", "alice", None),
        pr(11, "Fix login bug", "bob", None),
        pr(12, "Update docs", "carol", None),
    ];
    let r = filter_prs(&prs, "fxlgn");
    assert_eq!(r, vec![1]);
    let r = filter_prs(&prs, "zzzz");
    assert!(r.is_empty());
    // the author and number are part of the haystack, case is ignored
    assert_eq!(filter_prs(&prs, "CAROL")[0], 2);
    assert_eq!(filter_prs(&prs, "#11")[0], 1);
}

#[test]
fn cache_round_trip_drops_head_commit() {
    let mut store = empty_store();
    let prs = vec![pr(1, "one", "a", Some("abc")), pr(2, "two", "b", None)];
    assert_eq!(store.save_cache(&prs, "acme", "widgets", &PrFilter::MyPrs), Ok(()));
    let back = store.load_cache("acme", "widgets", &PrFilter::MyPrs);
    assert_eq!(back.len(), 2);
    for (a, b) in prs.iter().zip(back.iter()) {
        assert_eq!(a.number, b.number);
        assert_eq!(a.title, b.title);
        assert_eq!(a.branch, b.branch);
        assert_eq!(a.repo_owner, b.repo_owner);
        assert_eq!(a.repo_name, b.repo_name);
        assert_eq!(a.ci_status, b.ci_status);
        assert_eq!(a.author, b.author);
        assert!(b.head_sha.is_none());
    }
    // other keys are untouched
    assert!(store.load_cache("acme", "widgets", &PrFilter::ReviewRequested).is_empty());
}

#[test]
fn cache_save_replaces_key_wholesale() {
    let mut store = empty_store();
    store.save_cache(&vec![pr(1, "one", "a", None), pr(2, "two", "b", None)], "acme", "widgets", &PrFilter::MyPrs).unwrap();
    store.save_cache(&vec![pr(3, "three", "c", None)], "acme", "widgets", &PrFilter::MyPrs).unwrap();
    let back = store.load_cache("acme", "widgets", &PrFilter::MyPrs);
    assert_eq!(back.iter().map(|p| p.number).collect::<Vec<_>>(), vec![3]);
}

#[test]
fn cache_save_conflict_on_duplicate_number() {
    let mut store = empty_store();
    store.save_cache(&vec![pr(7, "seven", "a", None)], "acme", "widgets", &PrFilter::MyPrs).unwrap();
    let prs = vec![pr(1, "one", "a", None), pr(1, "again", "b", None)];
    assert_eq!(store.save_cache(&prs, "acme", "widgets", &PrFilter::MyPrs), Err(CacheError::Conflict));
    // a failed save changes nothing
    let back = store.load_cache("acme", "widgets", &PrFilter::MyPrs);
    assert_eq!(back.iter().map(|p| p.number).collect::<Vec<_>>(), vec![7]);
}

#[test]
fn label_filter_saved_twice_leaves_one_row() {
    let mut store = empty_store();
    assert_eq!(store.save_label_filter("bug", Some("acme"), Some("widgets")), Ok(()));
    assert_eq!(store.save_label_filter("bug", Some("acme"), Some("widgets")), Ok(()));
    assert_eq!(store.save_label_filter("urgent", None, None), Ok(()));
    assert_eq!(store.save_label_filter("urgent", None, None), Ok(()));
    assert_eq!(store.labels.len(), 2);
}

#[test]
fn label_filter_ids_exhausted() {
    let mut store = CacheStore::open(
        Some(CACHE_VERSION),
        Vec::new(),
        vec![LabelFilter { id: i64::MAX, label_name: "x".to_string(), repo_owner: None, repo_name: None }],
    );
    assert_eq!(store.save_label_filter("y", None, None), Err(CacheError::IdsExhausted));
}

#[test]
fn label_filters_sorted_repo_first_then_global() {
    let mut store = empty_store();
    store.save_label_filter("zeta", None, None).unwrap();
    store.save_label_filter("beta", Some("acme"), Some("widgets")).unwrap();
    store.save_label_filter("alpha", None, None).unwrap();
    store.save_label_filter("alpha", Some("acme"), Some("widgets")).unwrap();
    store.save_label_filter("other", Some("someone"), Some("else")).unwrap();
    let names: Vec<(String, bool)> = store
        .load_label_filters("acme", "widgets")
        .iter()
        .map(|l| (l.label_name.clone(), l.is_global()))
        .collect();
    assert_eq!(
        names,
        vec![
            ("alpha".to_string(), false),
            ("beta".to_string(), false),
            ("alpha".to_string(), true),
            ("zeta".to_string(), true)
        ]
    );
    let id = store.labels[0].id;
    store.delete_label_filter(id);
    assert_eq!(store.load_label_filters("acme", "widgets").len(), 3);
}

#[test]
fn version_bump_drops_both_tables() {
    let rows = vec![CachedPr {
        number: 1,
        title: "t".to_string(),
        branch: "b".to_string(),
        repo_owner: "acme".to_string(),
        repo_name: "widgets".to_string(),
        ci_status: CiStatus::Pending,
        filter: "my_prs".to_string(),
        author: "a".to_string(),
    }];
    let labels = vec![LabelFilter { id: 4, label_name: "bug".to_string(), repo_owner: None, repo_name: None }];
    let store = CacheStore::open(Some(CACHE_VERSION - 1), rows, labels);
    assert!(store.prs.is_empty());
    assert!(store.labels.is_empty());
    assert_eq!(store.version, CACHE_VERSION);
    assert!(ghui::cache::needs_reset(Some(CACHE_VERSION - 1)));
    assert!(ghui::cache::needs_reset(None));
    assert!(!ghui::cache::needs_reset(Some(CACHE_VERSION)));
}

#[test]
fn parallel_job_has_one_container_per_action() {
    let recs = vec![
        StepRecord { name: "checkout".to_string(), actions: vec![action("success", Some(0), "ok"), action("success", Some(0), "ok"), action("success", Some(0), "ok")] },
        StepRecord { name: "test".to_string(), actions: vec![action("success", Some(0), "  passed  "), action("failed", Some(1), ""), action("success", Some(0), "")] },
    ];
    let steps = build_job_steps(&recs);
    assert_eq!(steps.len(), 3);
    for (c, s) in steps.iter().enumerate() {
        assert_eq!(s.name, format!("Container {}", c));
        assert_eq!(s.sub_steps.as_ref().unwrap().len(), 2);
        let any = s.sub_steps.as_ref().unwrap().iter().any(|x| x.is_failed);
        assert_eq!(s.is_failed, any);
    }
    assert!(steps[1].is_failed);
    assert_eq!(steps[1].status, "failed");
    assert_eq!(steps[0].status, "success");
    let sub = &steps[1].sub_steps.as_ref().unwrap()[1];
    assert_eq!(sub.output, "Exit code: 1");
    assert_eq!(steps[0].sub_steps.as_ref().unwrap()[1].output, "passed");
    assert_eq!(steps[2].sub_steps.as_ref().unwrap()[1].output, "(No output)");
}

#[test]
fn flat_job_steps_and_summary() {
    let recs = vec![
        StepRecord { name: "build".to_string(), actions: vec![action("SUCCESS", Some(0), "built")] },
        StepRecord { name: "test".to_string(), actions: vec![ActionRecord { status: Some("Failed".to_string()), exit_code: None, output: OutputFetch::NoUrl }] },
    ];
    let logs = build_job_logs(7, "ci", &recs);
    let steps = logs.steps.as_ref().unwrap();
    assert_eq!(steps.len(), 2);
    assert!(!steps[0].is_failed);
    assert!(steps[1].is_failed);
    assert_eq!(steps[1].output, "(No output)");
    assert_eq!(logs.content, "2 steps (1 passed, 1 failed)\n\nUse j/k to navigate, Enter to expand/collapse");
    let empty = build_job_logs(7, "ci", &Vec::new());
    assert!(empty.steps.is_none());
    assert_eq!(empty.content, "No step information available.\n\nPress 'o' to open it in your browser.");
}

#[test]
fn fetch_failure_message_and_exit_code_output() {
    let recs = vec![StepRecord {
        name: "a".to_string(),
        actions: vec![
            ActionRecord { status: Some("success".to_string()), exit_code: Some(0), output: OutputFetch::FetchFailed("timeout".to_string()) },
            ActionRecord { status: Some("timedout".to_string()), exit_code: Some(-3), output: OutputFetch::NoUrl },
        ],
    }];
    let steps = build_job_steps(&recs);
    let subs0 = steps[0].sub_steps.as_ref().unwrap();
    assert_eq!(subs0[0].output, "(Failed to fetch output: timeout)");
    let subs1 = steps[1].sub_steps.as_ref().unwrap();
    assert!(subs1[0].is_failed);
    assert_eq!(subs1[0].output, "Exit code: -3");
}

fn step(name: &str, failed: bool, subs: Option<Vec<JobStep>>) -> JobStep {
    JobStep { name: name.to_string(), status: String::new(), output: String::new(), is_failed: failed, sub_steps: subs }
}

#[test]
fn default_selection_goes_to_the_single_failure() {
    let steps = vec![
        step("c0", false, Some(vec![step("a", false, None), step("b", false, None)])),
        step("c1", true, Some(vec![step("a", false, None), step("b", true, None)])),
    ];
    let c = StepCursor::initial(&steps);
    assert_eq!(c.selected, 1);
    assert_eq!(c.selected_sub, Some(1));
    assert_eq!(c.expanded, vec![false, true]);
    let none = vec![step("x", false, None), step("y", false, None)];
    let c = StepCursor::initial(&none);
    assert_eq!(c.selected, 0);
    assert_eq!(c.selected_sub, None);
}

#[test]
fn step_navigation_descends_into_expanded_steps() {
    let steps = vec![
        step("c0", true, Some(vec![step("a", true, None), step("b", false, None)])),
        step("c1", false, Some(vec![step("a", false, None)])),
    ];
    let mut c = StepCursor::initial(&steps);
    assert_eq!((c.selected, c.selected_sub), (0, Some(0)));
    c.next(&steps);
    assert_eq!((c.selected, c.selected_sub), (0, Some(1)));
    c.next(&steps);
    assert_eq!((c.selected, c.selected_sub), (1, None));
    c.next(&steps);
    assert_eq!((c.selected, c.selected_sub), (1, None));
    c.previous(&steps);
    assert_eq!((c.selected, c.selected_sub), (0, Some(1)));
    c.toggle(&steps);
    assert_eq!((c.selected, c.selected_sub), (0, None));
    assert_eq!(c.expanded, vec![false, false]);
}

#[test]
fn scenario_fetch_fills_empty_tab() {
    let mut a = app();
    assert_eq!(a.my_prs.len(), 0);
    match update(&mut a, Message::Refresh) {
        Some(Command::StartFetch(PrFilter::MyPrs)) => {}
        _ => panic!("expected a fetch of my pull requests"),
    }
    let cmd = update(&mut a, Message::FetchComplete(FetchResult::Success(vec![pr(1, "a", "x", None), pr(2, "b", "y", None)], PrFilter::MyPrs)));
    assert!(cmd.is_none());
    assert_eq!(a.filtered_indices.len(), 2);
    assert!(!a.loading_my_prs);
    assert_eq!(a.selected, Some(0));
    // the list was cached
    assert_eq!(a.cache.load_cache("acme", "widgets", &PrFilter::MyPrs).len(), 2);
}

#[test]
fn scenario_pending_head_commit_triggers_ci_fetch() {
    let mut a = app();
    update(&mut a, Message::FetchComplete(FetchResult::Success(vec![pr(42, "answer", "x", None)], PrFilter::MyPrs)));
    let cmd = update(&mut a, Message::OpenWorkflows);
    assert!(matches!(cmd, Some(Command::StartFetch(PrFilter::MyPrs))));
    assert_eq!(a.ci.pending_head_pr, Some(42));
    let cmd = update(&mut a, Message::FetchComplete(FetchResult::Success(vec![pr(42, "answer", "x", Some("deadbeef"))], PrFilter::MyPrs)));
    match cmd {
        Some(Command::StartActionsFetch { owner, repo, pr_number, head_sha }) => {
            assert_eq!(owner, "acme");
            assert_eq!(repo, "widgets");
            assert_eq!(pr_number, 42);
            assert_eq!(head_sha, "deadbeef");
        }
        _ => panic!("expected a CI fetch"),
    }
    assert_eq!(a.ci.pending_head_pr, None);
}

fn job(id: u64, url: Option<&str>, conclusion: Option<WorkflowConclusion>) -> WorkflowJob {
    WorkflowJob {
        id,
        name: format!("job{}", id),
        status: WorkflowStatus::Completed,
        conclusion,
        started_at: None,
        completed_at: None,
        details_url: url.map(|u| u.to_string()),
        summary: None,
        text: None,
        annotations: Vec::new(),
    }
}

fn run_with(jobs: Vec<WorkflowJob>) -> ActionsData {
    ActionsData {
        pr_number: 42,
        workflow_runs: vec![WorkflowRun {
            id: 1,
            name: "CI".to_string(),
            status: WorkflowStatus::Completed,
            conclusion: None,
            html_url: String::new(),
            jobs,
            created_at: String::new(),
            updated_at: String::new(),
        }],
        error: None,
    }
}

fn app_with_ci(configured: bool, jobs: Vec<WorkflowJob>) -> App {
    let mut a = App::new(Some("acme".to_string()), Some("widgets".to_string()), empty_store(), configured);
    update(&mut a, Message::FetchComplete(FetchResult::Success(vec![pr(42, "answer", "x", Some("abc"))], PrFilter::MyPrs)));
    let cmd = update(&mut a, Message::OpenWorkflows);
    assert!(matches!(cmd, Some(Command::StartActionsFetch { .. })));
    update(&mut a, Message::ActionsFetched(42, Ok(run_with(jobs))));
    a
}

#[test]
fn scenario_circleci_without_token_shows_instructions() {
    let url = "https://app.circleci.com/pipelines/gh/acme/widgets/9/workflows/w/jobs/77";
    let mut a = app_with_ci(false, vec![job(5, Some(url), Some(WorkflowConclusion::Failure))]);
    let cmd = update(&mut a, Message::OpenJobLogs);
    assert!(cmd.is_none());
    assert!(a.ci.show_job_logs);
    assert!(a.ci.job_logs_message.as_ref().unwrap().contains("CIRCLECI_TOKEN"));
}

#[test]
fn circleci_with_token_fetches_job_number() {
    let url = "https://app.circleci.com/pipelines/gh/acme/widgets/9/workflows/w/jobs/77";
    let mut a = app_with_ci(true, vec![job(5, Some(url), None)]);
    match update(&mut a, Message::OpenJobLogs) {
        Some(Command::StartCircleciJobLogsFetch { job_number, .. }) => assert_eq!(job_number, 77),
        _ => panic!("expected a CircleCI fetch"),
    }
}

#[test]
fn ci_result_selects_first_failed_job() {
    let a = app_with_ci(false, vec![job(1, None, Some(WorkflowConclusion::Success)), job(2, None, Some(WorkflowConclusion::Failure))]);
    assert_eq!(a.ci.selected_job, Some((0, 1)));
    assert!(!a.ci.actions_poll_enabled);
}

#[test]
fn annotations_open_annotation_view() {
    let mut j = job(3, None, Some(WorkflowConclusion::Failure));
    j.annotations.push(CheckAnnotation {
        path: "src/a.rs".to_string(),
        start_line: 1,
        end_line: 2,
        level: AnnotationLevel::Failure,
        message: "bad".to_string(),
        title: None,
    });
    let mut a = app_with_ci(false, vec![j]);
    assert!(update(&mut a, Message::OpenJobLogs).is_none());
    assert!(a.ci.show_annotations);
}

#[test]
fn default_backend_for_other_jobs() {
    let mut a = app_with_ci(false, vec![job(9, Some("https://github.com/acme/widgets/actions/runs/1"), None)]);
    match update(&mut a, Message::OpenJobLogs) {
        Some(Command::StartJobLogsFetch { job_id, job_name, .. }) => {
            assert_eq!(job_id, 9);
            assert_eq!(job_name, "job9");
        }
        _ => panic!("expected a log fetch"),
    }
}

#[test]
fn scenario_preview_scroll_clamps() {
    // 50 lines with a 5-line window: the furthest offset is 45.
    assert_eq!(scroll_down(40, 20, 50, 5), 45);
    assert_eq!(scroll_down(45, 1, 50, 5), 45);
    // 50 lines with 20 visible: the furthest offset is 30.
    assert_eq!(scroll_down(40, 1, 50, 20), 30);
    assert_eq!(scroll_down(10, 1, 50, 20), 11);
    assert_eq!(scroll_down(29, 5, 50, 20), 30);
    let mut a = app();
    a.preview.preview_total_lines = 50;
    a.preview.preview_height = 5;
    a.preview.preview_scroll = 40;
    update(&mut a, Message::PreviewPageDown);
    assert_eq!(a.preview.preview_scroll, 45);
    update(&mut a, Message::PreviewScrollDown);
    assert_eq!(a.preview.preview_scroll, 45);
}

#[test]
fn preview_positions_count_headers_and_separators() {
    let (positions, total) = calculate_preview_positions(&vec![3, 1, 0]);
    assert_eq!(positions, vec![0, 8, 14]);
    assert_eq!(total, 16);
    let (positions, total) = calculate_preview_positions(&Vec::new());
    assert!(positions.is_empty());
    assert_eq!(total, 0);
}

#[test]
fn github_urls() {
    assert_eq!(parse_github_url("git@github.com:acme/widgets.git"), Some(("acme".to_string(), "widgets".to_string())));
    assert_eq!(parse_github_url("https://github.com/acme/widgets.git"), Some(("acme".to_string(), "widgets".to_string())));
    assert_eq!(parse_github_url("https://github.com/acme/widgets"), Some(("acme".to_string(), "widgets".to_string())));
    assert_eq!(parse_github_url("ssh://git@github.com/acme/widgets/extra"), Some(("acme".to_string(), "widgets".to_string())));
    assert_eq!(parse_github_url("https://gitlab.com/acme/widgets"), None);
    assert_eq!(parse_github_url("https://github.com/acme"), None);
}

#[test]
fn circleci_urls() {
    assert!(is_circleci_url("https://circleci.com/gh/acme/widgets/123"));
    assert!(!is_circleci_url("https://github.com/acme"));
    assert_eq!(extract_job_number_from_url("https://circleci.com/gh/acme/widgets/123"), Some(123));
    assert_eq!(extract_job_number_from_url("https://circleci.com/gh/acme/widgets/123?utm=1"), Some(123));
    assert_eq!(extract_job_number_from_url("https://app.circleci.com/pipelines/github/acme/widgets/9/workflows/abc/jobs/456"), Some(456));
    assert_eq!(extract_job_number_from_url("https://app.circleci.com/pipelines/gh/acme/widgets/9/workflows/abc"), None);
    assert_eq!(extract_job_number_from_url("https://example.com/jobs/5"), None);
    assert_eq!(get_project_slug("acme", "widgets"), "github/acme/widgets");
    assert!(is_circleci_configured(Some("t")));
    assert!(!is_circleci_configured(None));
}

#[test]
fn status_words() {
    assert_eq!(parse_circleci_status("RUNNING"), WorkflowStatus::InProgress);
    assert_eq!(parse_circleci_status("failed"), WorkflowStatus::Completed);
    assert_eq!(parse_circleci_status("on_hold"), WorkflowStatus::Waiting);
    assert_eq!(parse_circleci_status("weird"), WorkflowStatus::Unknown);
    assert_eq!(parse_circleci_conclusion("Failing"), Some(WorkflowConclusion::Failure));
    assert_eq!(parse_circleci_conclusion("running"), None);
    assert_eq!(WorkflowStatus::parse("IN_PROGRESS"), WorkflowStatus::InProgress);
    assert_eq!(WorkflowConclusion::parse("Timed_Out"), WorkflowConclusion::TimedOut);
    assert_eq!(AnnotationLevel::parse("warning"), AnnotationLevel::Warning);
    assert_eq!(CiStatus::parse("error"), CiStatus::Failure);
    assert_eq!(CiStatus::parse("pending"), CiStatus::Pending);
    assert_eq!(CiStatus::Success.to_str(), "success");
    assert_eq!(PrFilter::ReviewRequested.to_str(), "review_requested");
}

#[test]
fn truncation() {
    assert_eq!(truncate_string("hello", 10), "hello");
    assert_eq!(truncate_string("hello world", 5), "hell…");
}

#[test]
fn search_page_conversion() {
    let nodes = vec![
        SearchNode::PullRequest {
            number: 5,
            title: "T".to_string(),
            head_ref_name: "feat".to_string(),
            commits: CommitConnection {
                nodes: vec![CommitNode {
                    commit: CommitData {
                        status_check_rollup: Some(StatusCheckRollup { state: "FAILURE".to_string() }),
                        oid: Some("f00".to_string()),
                    },
                }],
            },
            author: Some(Author { login: "dee".to_string() }),
        },
        SearchNode::Other,
        SearchNode::PullRequest {
            number: 6,
            title: "U".to_string(),
            head_ref_name: "fix".to_string(),
            commits: CommitConnection { nodes: Vec::new() },
            author: None,
        },
    ];
    let mut prs = Vec::new();
    collect_page(&mut prs, nodes, "acme", "widgets");
    assert_eq!(prs.len(), 2);
    assert_eq!(prs[0].ci_status, CiStatus::Failure);
    assert_eq!(prs[0].head_sha.as_deref(), Some("f00"));
    assert_eq!(prs[0].author, "dee");
    assert_eq!(prs[1].author, "unknown");
    assert_eq!(prs[1].ci_status, CiStatus::Unknown);
    assert!(continue_paging(10, &PageInfo { has_next_page: true, end_cursor: Some("c".to_string()) }));
    assert!(!continue_paging(500, &PageInfo { has_next_page: true, end_cursor: Some("c".to_string()) }));
    assert!(!continue_paging(10, &PageInfo { has_next_page: true, end_cursor: None }));
}

#[test]
fn switching_tabs_and_searching() {
    let mut a = app();
    update(&mut a, Message::FetchComplete(FetchResult::Success(vec![pr(1, "alpha", "x", None), pr(2, "beta", "y", None)], PrFilter::ReviewRequested)));
    assert_eq!(a.filtered_indices.len(), 0);
    update(&mut a, Message::SwitchTab(PrFilter::ReviewRequested));
    assert_eq!(a.filtered_indices, vec![0, 1]);
    update(&mut a, Message::EnterSearchMode);
    update(&mut a, Message::SearchInput('b'));
    update(&mut a, Message::SearchInput('e'));
    update(&mut a, Message::SearchInput('t'));
    assert_eq!(a.filtered_indices, vec![1]);
    assert_eq!(a.selected, Some(0));
    update(&mut a, Message::SearchBackspace);
    assert_eq!(a.search_query, "be");
    update(&mut a, Message::ExitSearchMode { clear: true });
    assert_eq!(a.filtered_indices, vec![0, 1]);
    update(&mut a, Message::NextItem);
    update(&mut a, Message::NextItem);
    assert_eq!(a.selected, Some(1));
    update(&mut a, Message::GoToTop);
    assert_eq!(a.selected, Some(0));
    match update(&mut a, Message::OpenSelected) {
        Some(Command::OpenUrl(u)) => assert_eq!(u, "https://github.com/acme/widgets/pull/1"),
        _ => panic!("expected a URL"),
    }
}

#[test]
fn fetch_error_shows_popup_and_clears_loading() {
    let mut a = app();
    update(&mut a, Message::FetchComplete(FetchResult::Error("boom".to_string())));
    assert!(a.show_error_popup);
    assert_eq!(a.error.as_deref(), Some("boom"));
    assert!(!a.loading_my_prs && !a.loading_review_prs && !a.loading_labels_prs);
}

#[test]
fn labels_popup_adds_and_refetches() {
    let mut a = app();
    update(&mut a, Message::SwitchTab(PrFilter::Labels(Vec::new())));
    update(&mut a, Message::OpenAddLabelPopup);
    for c in "  bug ".chars() {
        update(&mut a, Message::LabelInput(c));
    }
    match update(&mut a, Message::AddLabel) {
        Some(Command::StartFetch(PrFilter::Labels(l))) => assert_eq!(l, vec!["bug".to_string()]),
        _ => panic!("expected a labels fetch"),
    }
    assert_eq!(a.configured_labels.len(), 1);
    update(&mut a, Message::OpenLabelsPopup);
    assert!(matches!(update(&mut a, Message::DeleteSelectedLabel), Some(Command::StartFetch(PrFilter::Labels(_)))));
    assert!(a.configured_labels.is_empty());
}

#[test]
fn checkout_flow() {
    let mut a = app();
    update(&mut a, Message::FetchComplete(FetchResult::Success(vec![pr(1, "alpha", "x", None)], PrFilter::MyPrs)));
    update(&mut a, Message::PromptCheckout);
    assert!(a.show_checkout_popup);
    match update(&mut a, Message::ConfirmCheckout) {
        Some(Command::Checkout(b)) => assert_eq!(b, "branch-1"),
        _ => panic!("expected a checkout"),
    }
    assert!(update(&mut a, Message::CheckoutFinished(Err("dirty tree".to_string()))).is_none());
    assert!(a.show_error_popup);
    assert!(a.show_checkout_popup);
    assert!(matches!(update(&mut a, Message::CheckoutFinished(Ok(()))), Some(Command::ExitAfterCheckout)));
    assert!(matches!(update(&mut a, Message::Quit), Some(Command::Quit)));
}

#[test]
fn search_queries() {
    assert_eq!(
        ghui::graphql::search_query(&PrFilter::MyPrs, "acme", "widgets", "me"),
        Some("repo:acme/widgets is:pr is:open author:me".to_string())
    );
    assert_eq!(
        ghui::graphql::search_query(&PrFilter::ReviewRequested, "acme", "widgets", "me"),
        Some("repo:acme/widgets is:pr is:open review-requested:me".to_string())
    );
    assert_eq!(
        ghui::graphql::search_query(&PrFilter::Labels(vec!["bug".to_string(), "ui fix".to_string()]), "acme", "widgets", ""),
        Some("repo:acme/widgets is:pr is:open label:\"bug\" label:\"ui fix\"".to_string())
    );
    assert_eq!(ghui::graphql::search_query(&PrFilter::Labels(Vec::new()), "acme", "widgets", ""), None);
}

#[test]
fn scheduler_polls_ci_then_refreshes() {
    let mut a = app_with_ci(false, vec![job(1, None, None)]);
    a.ci.actions_data.as_mut().unwrap().workflow_runs[0].jobs[0].status = WorkflowStatus::InProgress;
    a.ci.actions_poll_enabled = true;
    assert!(matches!(a.schedule(0, 31_000), Some(Message::PollActions)));
    assert!(a.schedule(0, 1_000).is_none());
    match update(&mut a, Message::PollActions) {
        Some(Command::StartActionsFetch { pr_number, head_sha, .. }) => {
            assert_eq!(pr_number, 42);
            assert_eq!(head_sha, "abc");
        }
        _ => panic!("expected a CI poll"),
    }
    assert!(update(&mut a, Message::PollActions).is_none());
    let mut b = app();
    b.loading_my_prs = false;
    b.loading_review_prs = false;
    assert!(matches!(b.schedule(31_000, 0), Some(Message::Refresh)));
    assert!(b.schedule(1_000, 0).is_none());
    b.show_help_popup = true;
    assert!(b.schedule(31_000, 0).is_none());
}

#[test]
fn exit_status_line_marks_step_failed() {
    let recs = vec![
        StepRecord { name: "run".to_string(), actions: vec![action("success", Some(0), "building\nexit status 2\n\n  \n")] },
        StepRecord { name: "ok".to_string(), actions: vec![action("success", Some(0), "done\nexited with code 0\n")] },
        StepRecord { name: "mid".to_string(), actions: vec![action("success", None, "exit status 1\nall good afterwards\n")] },
        StepRecord { name: "late".to_string(), actions: vec![action("success", None, "exit status 0 then exited with code 0; exit status 3")] },
    ];
    let steps = build_job_steps(&recs);
    assert!(steps[0].is_failed);
    assert_eq!(steps[0].output, "building\nexit status 2");
    assert!(!steps[1].is_failed);
    assert!(!steps[2].is_failed);
    assert!(steps[3].is_failed);
    let c = StepCursor::initial(&steps);
    assert_eq!(c.selected, 0);
}

#[test]
fn job_logs_arrive_and_step_output_opens_in_editor() {
    let mut a = app_with_ci(false, vec![job(8, None, Some(WorkflowConclusion::Failure))]);
    assert!(matches!(update(&mut a, Message::OpenJobLogs), Some(Command::StartJobLogsFetch { .. })));
    let recs = vec![
        StepRecord { name: "build".to_string(), actions: vec![action("success", Some(0), "built")] },
        StepRecord { name: "test".to_string(), actions: vec![action("failed", Some(1), "1 failure")] },
    ];
    let logs = build_job_logs(8, "job8", &recs);
    assert!(update(&mut a, Message::JobLogsFetched(8, Ok(logs))).is_none());
    let cursor = a.ci.step_cursor.as_ref().unwrap();
    assert_eq!(cursor.selected, 1);
    match update(&mut a, Message::OpenStepInEditor) {
        Some(Command::OpenInEditor { content, .. }) => assert_eq!(content, "1 failure"),
        _ => panic!("expected the editor"),
    }
    update(&mut a, Message::StepPrevious);
    match update(&mut a, Message::OpenStepInEditor) {
        Some(Command::OpenInEditor { content, .. }) => assert_eq!(content, "built"),
        _ => panic!("expected the editor"),
    }
    // a result for another job is ignored
    let other = build_job_logs(9, "x", &Vec::new());
    update(&mut a, Message::JobLogsFetched(9, Ok(other)));
    assert!(a.ci.job_logs.as_ref().unwrap().steps.is_some());
}

#[test]
fn label_buckets_are_keyed_by_label_set() {
    let mut store = empty_store();
    let bug = PrFilter::Labels(vec!["bug".to_string()]);
    let ui = PrFilter::Labels(vec!["bug".to_string(), "ui".to_string()]);
    store.save_cache(&vec![pr(1, "one", "a", None)], "acme", "widgets", &bug).unwrap();
    assert_eq!(store.load_cache("acme", "widgets", &bug).len(), 1);
    assert!(store.load_cache("acme", "widgets", &ui).is_empty());
    assert_eq!(ui.cache_key(), "labels:bug,ui");
    assert_eq!(PrFilter::MyPrs.cache_key(), "my_prs");
}

#[test]
fn jobs_move_across_runs() {
    let mut a = app_with_ci(false, vec![job(1, None, None), job(2, None, None)]);
    a.ci.actions_data.as_mut().unwrap().workflow_runs.push(WorkflowRun {
        id: 2,
        name: "Lint".to_string(),
        status: WorkflowStatus::Completed,
        conclusion: None,
        html_url: String::new(),
        jobs: vec![job(3, None, None)],
        created_at: String::new(),
        updated_at: String::new(),
    });
    assert_eq!(a.ci.selected_job, Some((0, 0)));
    update(&mut a, Message::JobsNext);
    assert_eq!(a.ci.selected_job, Some((0, 1)));
    update(&mut a, Message::JobsNext);
    assert_eq!(a.ci.selected_job, Some((1, 0)));
    update(&mut a, Message::JobsNext);
    assert_eq!(a.ci.selected_job, Some((1, 0)));
    update(&mut a, Message::JobsPrevious);
    assert_eq!(a.ci.selected_job, Some((0, 1)));
}

#[test]
fn preview_sections_jump_between_comments() {
    let mut a = app();
    a.preview.preview_positions = vec![0, 8, 14];
    a.preview.preview_scroll = 3;
    update(&mut a, Message::PreviewNextSection);
    assert_eq!(a.preview.preview_scroll, 8);
    update(&mut a, Message::PreviewNextSection);
    assert_eq!(a.preview.preview_scroll, 14);
    update(&mut a, Message::PreviewNextSection);
    assert_eq!(a.preview.preview_scroll, 14);
    update(&mut a, Message::PreviewPreviousSection);
    assert_eq!(a.preview.preview_scroll, 8);
}

#[test]
fn views_exclude_each_other() {
    let mut a = app_with_ci(false, vec![job(1, None, None)]);
    assert!(a.ci.show_workflows);
    update(&mut a, Message::OpenPreview);
    assert!(a.preview.show_preview);
    assert!(!a.ci.show_workflows && !a.ci.show_job_logs);
    // job logs open only inside the workflows view
    assert!(update(&mut a, Message::OpenJobLogs).is_none());
    assert!(!a.ci.show_job_logs);
}

#[test]
fn step_output_text_choices() {
    let lines = Some(vec![Some("a\x1b[31mred\x1b[0m ".to_string()), None, Some("b".to_string())]);
    assert_eq!(step_output_text(lines, None, "[...]"), "ared b");
    assert_eq!(step_output_text(Some(vec![None]), Some((None, Some("out".to_string()))), "{}"), "out");
    assert_eq!(step_output_text(None, Some((Some("m".to_string()), Some("o".to_string()))), "{}"), "m");
    assert_eq!(step_output_text(None, None, "plain log"), "plain log");
    assert_eq!(step_output_text(None, None, "{broken"), "");
    assert_eq!(step_output_text(None, None, "   "), "");
}
