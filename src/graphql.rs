//! The records of the code-review service's pull-request search, and their
//! conversion into pull requests.

use vstd::prelude::*;
use vstd::string::*;
use crate::models::{PullRequest, PrView, opt_view, prs_view};
use crate::types::{CiStatus, PrFilter, ci_status_of_upper, strings_view};
use crate::text::upper_of;

verus! {

/// The commits of a pull request (the search asks for the last one).
#[derive(Debug)]
pub struct CommitConnection {
    pub nodes: Vec<CommitNode>,
}

/// One commit of a pull request.
#[derive(Debug)]
pub struct CommitNode {
    pub commit: CommitData,
}

impl CommitNode {
    /// The commit id, when reported.
    pub fn oid(&self) -> (r: Option<&str>)
        ensures
            match r {
                Some(s) => self.commit.oid is Some && s@ == self.commit.oid->0@,
                None => self.commit.oid is None,
            },
    {
        match &self.commit.oid {
            Some(s) => Some(s.as_str()),
            None => None,
        }
    }
}

/// The CI rollup and id of a commit.
#[derive(Debug)]
pub struct CommitData {
    pub status_check_rollup: Option<StatusCheckRollup>,
    pub oid: Option<String>,
}

/// The combined CI state of a commit.
#[derive(Debug)]
pub struct StatusCheckRollup {
    pub state: String,
}

/// A search response.
#[derive(Debug)]
pub struct SearchGraphQLResponse {
    pub data: SearchGraphQLData,
}

/// The data of a search response.
#[derive(Debug)]
pub struct SearchGraphQLData {
    pub search: SearchConnection,
}

/// One page of search results.
#[derive(Debug)]
pub struct SearchConnection {
    pub nodes: Vec<SearchNode>,
    pub page_info: PageInfo,
}

/// Where the next page of search results starts.
#[derive(Debug)]
pub struct PageInfo {
    pub has_next_page: bool,
    pub end_cursor: Option<String>,
}

/// The author of a pull request.
#[derive(Debug)]
pub struct Author {
    pub login: String,
}

/// A search result: a pull request, or anything else.
#[derive(Debug)]
pub enum SearchNode {
    PullRequest {
        number: u64,
        title: String,
        head_ref_name: String,
        commits: CommitConnection,
        author: Option<Author>,
    },
    Other,
}

/// The most pull requests gathered over all pages.
pub const MAX_RESULTS: usize = 500;

/// The CI status of a pull request: its last commit's rollup, else unknown.
pub open spec fn node_ci_status(commits: CommitConnection) -> CiStatus {
    if commits.nodes@.len() > 0 && commits.nodes@[0].commit.status_check_rollup is Some {
        ci_status_of_upper(upper_of(commits.nodes@[0].commit.status_check_rollup->0.state@))
    } else {
        CiStatus::Unknown
    }
}

/// The pull request a search result stands for, in the given repository.
pub open spec fn node_pr(node: SearchNode, owner: Seq<char>, repo: Seq<char>) -> Option<PrView> {
    match node {
        SearchNode::PullRequest { number, title, head_ref_name, commits, author } => Some(PrView {
            number,
            title: title@,
            branch: head_ref_name@,
            repo_owner: owner,
            repo_name: repo,
            ci_status: node_ci_status(commits),
            author: match author {
                Some(a) => a.login@,
                None => "unknown"@,
            },
            head_sha: if commits.nodes@.len() > 0 {
                opt_view(commits.nodes@[0].commit.oid)
            } else {
                None
            },
        }),
        SearchNode::Other => None,
    }
}

/// The pull requests of a page of search results, in order.
pub open spec fn page_prs(nodes: Seq<SearchNode>, owner: Seq<char>, repo: Seq<char>) -> Seq<PrView>
    decreases nodes.len(),
{
    if nodes.len() == 0 {
        Seq::empty()
    } else {
        let rest = page_prs(nodes.drop_last(), owner, repo);
        match node_pr(nodes.last(), owner, repo) {
            Some(p) => rest.push(p),
            None => rest,
        }
    }
}

/// Appends the pull requests of one page of search results to `prs`.
pub fn collect_page(prs: &mut Vec<PullRequest>, nodes: Vec<SearchNode>, owner: &str, repo: &str)
    ensures
        prs_view(final(prs)@) == prs_view(old(prs)@) + page_prs(nodes@, owner@, repo@),
{
    let ghost all = nodes@;
    let mut nodes = nodes;
    let mut rest: Vec<SearchNode> = Vec::new();
    // Take the nodes in order by reversing them once.
    while nodes.len() > 0
        invariant
            all == nodes@ + rest@.reverse(),
        decreases nodes@.len(),
    {
        let ghost nodes_old = nodes@;
        let n = nodes.pop().unwrap();
        proof {
            assert(nodes_old == nodes@.push(n));
            assert(rest@.push(n).reverse() =~= seq![n] + rest@.reverse());
            assert(all =~= nodes@ + rest@.push(n).reverse());
        }
        rest.push(n);
    }
    assert(all =~= rest@.reverse());
    let ghost start = prs_view(prs@);
    let mut done: Ghost<Seq<SearchNode>> = Ghost(Seq::empty());
    while rest.len() > 0
        invariant
            all == done@ + rest@.reverse(),
            prs_view(prs@) == start + page_prs(done@, owner@, repo@),
        decreases rest@.len(),
    {
        let ghost rest_old = rest@;
        let node = rest.pop().unwrap();
        proof {
            assert(rest_old == rest@.push(node));
            assert(rest_old.reverse() =~= seq![node] + rest@.reverse());
            assert(all =~= done@.push(node) + rest@.reverse());
            assert(done@.push(node).drop_last() =~= done@);
        }
        let ghost before = prs_view(prs@);
        match node {
            SearchNode::PullRequest { number, title, head_ref_name, commits, author } => {
                let ci_status = if commits.nodes.len() > 0 {
                    match &commits.nodes[0].commit.status_check_rollup {
                        Some(r) => CiStatus::parse(r.state.as_str()),
                        None => CiStatus::Unknown,
                    }
                } else {
                    CiStatus::Unknown
                };
                let head_sha = if commits.nodes.len() > 0 {
                    crate::models::copy_opt(&commits.nodes[0].commit.oid)
                } else {
                    None
                };
                let author_login = match author {
                    Some(a) => a.login,
                    None => String::from_str("unknown"),
                };
                let pr = PullRequest {
                    number,
                    title,
                    branch: head_ref_name,
                    repo_owner: String::from_str(owner),
                    repo_name: String::from_str(repo),
                    ci_status,
                    author: author_login,
                    head_sha,
                };
                let ghost pv = pr@;
                prs.push(pr);
                assert(prs_view(prs@) =~= before.push(pv));
            },
            SearchNode::Other => {},
        }
        proof {
            done@ = done@.push(node);
        }
    }
    assert(done@ =~= all);
}

/// Whether another page is fetched: fewer than the maximum gathered, and a
/// next page with a cursor.
pub fn continue_paging(gathered: usize, page: &PageInfo) -> (r: bool)
    ensures
        r == (gathered < MAX_RESULTS && page.has_next_page && page.end_cursor is Some),
{
    gathered < MAX_RESULTS && page.has_next_page && page.end_cursor.is_some()
}

/// The search terms that select pull requests carrying every label.
pub open spec fn labels_terms(labels: Seq<Seq<char>>) -> Seq<char>
    decreases labels.len(),
{
    if labels.len() == 0 {
        Seq::empty()
    } else if labels.len() == 1 {
        "label:\""@ + labels[0] + "\""@
    } else {
        labels_terms(labels.drop_last()) + " label:\""@ + labels.last() + "\""@
    }
}

/// The search query for a filter in a repository; no query (and no fetch)
/// for a label filter without labels.
pub open spec fn search_query_of(filter: PrFilter, owner: Seq<char>, repo: Seq<char>, user: Seq<char>) -> Option<Seq<char>> {
    let base = "repo:"@ + owner + "/"@ + repo + " is:pr is:open "@;
    match filter {
        PrFilter::MyPrs => Some(base + "author:"@ + user),
        PrFilter::ReviewRequested => Some(base + "review-requested:"@ + user),
        PrFilter::Labels(l) => if l@.len() == 0 { None } else { Some(base + labels_terms(strings_view(l@))) },
    }
}

/// Builds the search query for a filter.
pub fn search_query(filter: &PrFilter, owner: &str, repo: &str, user: &str) -> (r: Option<String>)
    ensures
        match r {
            Some(q) => search_query_of(*filter, owner@, repo@, user@) == Some(q@),
            None => search_query_of(*filter, owner@, repo@, user@) is None,
        },
{
    let mut q = String::from_str("repo:");
    q.append(owner);
    q.append("/");
    q.append(repo);
    q.append(" is:pr is:open ");
    match filter {
        PrFilter::MyPrs => {
            q.append("author:");
            q.append(user);
            Some(q)
        },
        PrFilter::ReviewRequested => {
            q.append("review-requested:");
            q.append(user);
            Some(q)
        },
        PrFilter::Labels(labels) => {
            if labels.len() == 0 {
                return None;
            }
            let ghost base = q@;
            let ghost lv = strings_view(labels@);
            let mut i: usize = 0;
            while i < labels.len()
                invariant
                    i <= labels@.len(),
                    labels@.len() > 0,
                    lv == strings_view(labels@),
                    q@ == base + labels_terms(lv.subrange(0, i as int)),
                decreases labels@.len() - i,
            {
                assert(lv.subrange(0, i + 1).drop_last() =~= lv.subrange(0, i as int));
                if i == 0 {
                    q.append("label:\"");
                } else {
                    q.append(" label:\"");
                }
                q.append(labels[i].as_str());
                q.append("\"");
                assert(q@ =~= base + labels_terms(lv.subrange(0, i + 1)));
                i += 1;
            }
            assert(lv.subrange(0, labels@.len() as int) =~= lv);
            Some(q)
        },
    }
}

} // verus!
