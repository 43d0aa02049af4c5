//! The cache store: the last successful pull-request list of each
//! (owner, repository, filter) key, and the configured label filters, under
//! a schema version that discards everything when it changes.
//!
//! The store holds the rows of both tables; the host loads them from the
//! cache file and writes back what the operations leave.

use vstd::prelude::*;
use vstd::string::*;
use crate::models::{
    PullRequest, PrView, LabelFilter, LabelView, opt_view, copy_opt, prs_view, labels_view,
};
use crate::types::{CiStatus, PrFilter, filter_key, CACHE_VERSION};
use crate::text::{
    str_eq, chars_of, chars_less, seq_less, lemma_seq_less_transitive, lemma_seq_less_asymmetric,
    lemma_seq_less_total,
};

verus! {

broadcast use vstd::seq_lib::group_seq_properties;

/// A row of the cached pull-request table.
#[derive(Debug)]
pub struct CachedPr {
    pub number: u64,
    pub title: String,
    pub branch: String,
    pub repo_owner: String,
    pub repo_name: String,
    pub ci_status: CiStatus,
    pub filter: String,
    pub author: String,
}

/// A cached pull-request row as plain values.
pub struct PrRow {
    pub number: u64,
    pub title: Seq<char>,
    pub branch: Seq<char>,
    pub repo_owner: Seq<char>,
    pub repo_name: Seq<char>,
    pub ci_status: CiStatus,
    pub filter: Seq<char>,
    pub author: Seq<char>,
}

impl View for CachedPr {
    type V = PrRow;

    open spec fn view(&self) -> PrRow {
        PrRow {
            number: self.number,
            title: self.title@,
            branch: self.branch@,
            repo_owner: self.repo_owner@,
            repo_name: self.repo_name@,
            ci_status: self.ci_status,
            filter: self.filter@,
            author: self.author@,
        }
    }
}

/// Each row of a table as plain values.
pub open spec fn rows_view(s: Seq<CachedPr>) -> Seq<PrRow> {
    s.map_values(|x: CachedPr| x@)
}

/// Why a write to the store was refused.
#[derive(Clone, Copy, Debug, PartialEq, Eq, Structural)]
pub enum CacheError {
    /// A row with the same number, owner, repository and filter is already stored.
    Conflict,
    /// No label-filter id is left.
    IdsExhausted,
}

impl CacheError {
    /// A short description of the error.
    pub fn describe(&self) -> (r: &'static str)
        ensures
            r@ == match *self {
                CacheError::Conflict => "a row with this key exists"@,
                CacheError::IdsExhausted => "no label id is left"@,
            },
    {
        match self {
            CacheError::Conflict => "a row with this key exists",
            CacheError::IdsExhausted => "no label id is left",
        }
    }
}

/// The cache: its schema version and the rows of its two data tables.
#[derive(Debug)]
pub struct CacheStore {
    pub version: i32,
    pub prs: Vec<CachedPr>,
    pub labels: Vec<LabelFilter>,
    pub next_label_id: i64,
}

/// A row belongs to the (owner, repository, filter) key.
pub open spec fn in_key(x: PrRow, o: Seq<char>, r: Seq<char>, f: Seq<char>) -> bool {
    x.repo_owner == o && x.repo_name == r && x.filter == f
}

/// The rows of a key.
pub open spec fn key_of(o: Seq<char>, r: Seq<char>, f: Seq<char>) -> spec_fn(PrRow) -> bool {
    |x: PrRow| in_key(x, o, r, f)
}

/// The rows outside a key.
pub open spec fn not_key_of(o: Seq<char>, r: Seq<char>, f: Seq<char>) -> spec_fn(PrRow) -> bool {
    |x: PrRow| !in_key(x, o, r, f)
}

/// The row stored for a pull request under a filter (its head commit is not kept).
pub open spec fn row_of(p: PrView, f: Seq<char>) -> PrRow {
    PrRow {
        number: p.number,
        title: p.title,
        branch: p.branch,
        repo_owner: p.repo_owner,
        repo_name: p.repo_name,
        ci_status: p.ci_status,
        filter: f,
        author: p.author,
    }
}

/// The pull request read back from a row: without a head commit.
pub open spec fn pr_of(x: PrRow) -> PrView {
    PrView {
        number: x.number,
        title: x.title,
        branch: x.branch,
        repo_owner: x.repo_owner,
        repo_name: x.repo_name,
        ci_status: x.ci_status,
        author: x.author,
        head_sha: None,
    }
}

/// What loading a key reads: its rows in table order.
pub open spec fn loaded(rows: Seq<PrRow>, o: Seq<char>, r: Seq<char>, f: Seq<char>) -> Seq<PrView> {
    rows.filter(key_of(o, r, f)).map_values(|x: PrRow| pr_of(x))
}

/// Two rows share the table's primary key.
pub open spec fn same_pk(a: PrRow, b: PrRow) -> bool {
    a.number == b.number && a.repo_owner == b.repo_owner && a.repo_name == b.repo_name && a.filter
        == b.filter
}

/// A row clashes with the primary key of a stored row.
pub open spec fn clashes(rows: Seq<PrRow>, x: PrRow) -> bool {
    exists|k: int| 0 <= k < rows.len() && same_pk(#[trigger] rows[k], x)
}

/// Inserting rows one by one, stopping at the first that clashes; the flag
/// says whether all went in.
pub open spec fn insert_rows(rows: Seq<PrRow>, new: Seq<PrRow>) -> (Seq<PrRow>, bool)
    decreases new.len(),
{
    if new.len() == 0 {
        (rows, true)
    } else if clashes(rows, new[0]) {
        (rows, false)
    } else {
        insert_rows(rows.push(new[0]), new.subrange(1, new.len() as int))
    }
}

/// The rows stored for a list of pull requests under a filter.
pub open spec fn rows_for(prs: Seq<PrView>, f: Seq<char>) -> Seq<PrRow> {
    prs.map_values(|p: PrView| row_of(p, f))
}

/// Saving a key: its rows are deleted, then the new rows are inserted.
pub open spec fn saved(rows: Seq<PrRow>, prs: Seq<PrView>, o: Seq<char>, r: Seq<char>, f: Seq<char>) -> (
    Seq<PrRow>,
    bool,
) {
    insert_rows(rows.filter(not_key_of(o, r, f)), rows_for(prs, f))
}

/// The (name, owner, repository) tuple of a label filter.
pub open spec fn same_tuple(a: LabelView, b: LabelView) -> bool {
    a.label_name == b.label_name && a.repo_owner == b.repo_owner && a.repo_name == b.repo_name
}

/// A label filter with this tuple is stored.
pub open spec fn has_tuple(
    labels: Seq<LabelView>,
    name: Seq<char>,
    o: Option<Seq<char>>,
    r: Option<Seq<char>>,
) -> bool {
    exists|k: int|
        0 <= k < labels.len() && (#[trigger] labels[k]).label_name == name && labels[k].repo_owner
            == o && labels[k].repo_name == r
}

/// No two label filters share a tuple (global ones included).
pub open spec fn tuples_unique(labels: Seq<LabelView>) -> bool {
    forall|i: int, j: int|
        0 <= i < j < labels.len() ==> !same_tuple(#[trigger] labels[i], #[trigger] labels[j])
}

/// Saving a label filter: nothing changes when its tuple is stored already.
pub open spec fn label_saved(
    labels: Seq<LabelView>,
    name: Seq<char>,
    o: Option<Seq<char>>,
    r: Option<Seq<char>>,
    id: i64,
) -> Seq<LabelView> {
    if has_tuple(labels, name, o, r) {
        labels
    } else {
        labels.push(LabelView { id, label_name: name, repo_owner: o, repo_name: r })
    }
}

/// The characters of an optional string slice.
pub open spec fn opt_str_view(o: Option<&str>) -> Option<Seq<char>> {
    match o {
        Some(s) => Some(s@),
        None => None,
    }
}

/// A label filter is shown for a repository when it belongs to it or is global.
pub open spec fn label_visible(l: LabelView, o: Seq<char>, r: Seq<char>) -> bool {
    (l.repo_owner == Some(o) && l.repo_name == Some(r)) || (l.repo_owner is None && l.repo_name
        is None)
}

/// Repository-specific filters come first, global ones last.
pub open spec fn label_group(l: LabelView) -> int {
    if l.repo_owner is None { 1 } else { 0 }
}

/// Row `ia` is listed before row `ib`: by group, then name, then table order.
pub open spec fn label_before(a: LabelView, ia: int, b: LabelView, ib: int) -> bool {
    label_group(a) < label_group(b) || (label_group(a) == label_group(b) && (seq_less(
        a.label_name,
        b.label_name,
    ) || (a.label_name == b.label_name && ia < ib)))
}

/// `idx` lists exactly the rows shown for a repository, in display order.
pub open spec fn label_order_ok(idx: Seq<usize>, labels: Seq<LabelView>, o: Seq<char>, r: Seq<char>) -> bool {
    &&& forall|k: int| 0 <= k < idx.len() ==> (#[trigger] idx[k]) < labels.len() && label_visible(labels[idx[k] as int], o, r)
    &&& forall|i: int| 0 <= i < labels.len() && label_visible(#[trigger] labels[i], o, r) ==> idx.contains(i as usize)
    &&& forall|k1: int, k2: int|
        0 <= k1 < k2 < idx.len() ==> label_before(
            labels[idx[k1] as int],
            idx[k1] as int,
            labels[idx[k2] as int],
            idx[k2] as int,
        )
}

/// `list` holds exactly the label filters shown for a repository, in
/// display order.
pub open spec fn shows_labels(list: Seq<LabelFilter>, labels: Seq<LabelView>, o: Seq<char>, r: Seq<char>) -> bool {
    exists|idx: Seq<usize>|
        label_order_ok(idx, labels, o, r) && idx.len() == list.len() && forall|k: int|
            0 <= k < idx.len() ==> (#[trigger] list[k])@ == labels[idx[k] as int]
}

/// What saving a label filter leaves and whether it succeeds: nothing
/// changes for a tuple that is stored already; without ids left it fails;
/// else the filter is added with the next id.
pub open spec fn label_save_outcome(
    labels: Seq<LabelView>,
    next_id: i64,
    name: Seq<char>,
    o: Option<Seq<char>>,
    r: Option<Seq<char>>,
) -> (Seq<LabelView>, bool) {
    if has_tuple(labels, name, o, r) {
        (labels, true)
    } else if next_id == i64::MAX {
        (labels, false)
    } else {
        (label_saved(labels, name, o, r, next_id), true)
    }
}

impl CacheStore {
    /// Well-formed: label tuples are unique and ids are positive.
    pub open spec fn wf(&self) -> bool {
        &&& tuples_unique(labels_view(self.labels@))
        &&& self.next_label_id >= 1
    }
}

fn to_row(p: &PullRequest, f: &str) -> (r: CachedPr)
    ensures
        r@ == row_of(p@, f@),
{
    CachedPr {
        number: p.number,
        title: p.title.clone(),
        branch: p.branch.clone(),
        repo_owner: p.repo_owner.clone(),
        repo_name: p.repo_name.clone(),
        ci_status: p.ci_status,
        filter: String::from_str(f),
        author: p.author.clone(),
    }
}

fn to_pr(x: &CachedPr) -> (r: PullRequest)
    ensures
        r@ == pr_of(x@),
{
    PullRequest {
        number: x.number,
        title: x.title.clone(),
        branch: x.branch.clone(),
        repo_owner: x.repo_owner.clone(),
        repo_name: x.repo_name.clone(),
        ci_status: x.ci_status,
        author: x.author.clone(),
        head_sha: None,
    }
}

fn row_in_key(x: &CachedPr, o: &str, r: &str, f: &str) -> (b: bool)
    ensures
        b == in_key(x@, o@, r@, f@),
{
    str_eq(x.repo_owner.as_str(), o) && str_eq(x.repo_name.as_str(), r) && str_eq(
        x.filter.as_str(),
        f,
    )
}

fn has_clash(rows: &Vec<CachedPr>, x: &CachedPr) -> (b: bool)
    ensures
        b == clashes(rows_view(rows@), x@),
{
    let mut k: usize = 0;
    while k < rows.len()
        invariant
            k <= rows@.len(),
            forall|j: int| 0 <= j < k ==> !same_pk(#[trigger] rows_view(rows@)[j], x@),
        decreases rows@.len() - k,
    {
        let y = &rows[k];
        if y.number == x.number && str_eq(y.repo_owner.as_str(), x.repo_owner.as_str()) && str_eq(
            y.repo_name.as_str(),
            x.repo_name.as_str(),
        ) && str_eq(y.filter.as_str(), x.filter.as_str()) {
            assert(same_pk(rows_view(rows@)[k as int], x@));
            return true;
        }
        k += 1;
    }
    false
}

proof fn lemma_rows_push(s: Seq<CachedPr>, i: int)
    requires
        0 <= i < s.len(),
    ensures
        rows_view(s.subrange(0, i + 1)) == rows_view(s.subrange(0, i)).push(s[i]@),
{
    assert(rows_view(s.subrange(0, i + 1)) =~= rows_view(s.subrange(0, i)).push(s[i]@));
}

proof fn lemma_filter_all<A>(s: Seq<A>, p: spec_fn(A) -> bool)
    requires
        forall|i: int| 0 <= i < s.len() ==> p(#[trigger] s[i]),
    ensures
        s.filter(p) == s,
    decreases s.len(),
{
    reveal(Seq::filter);
    if s.len() > 0 {
        lemma_filter_all(s.drop_last(), p);
        assert(s.drop_last().push(s.last()) =~= s);
    }
}

proof fn lemma_filter_none<A>(s: Seq<A>, p: spec_fn(A) -> bool)
    requires
        forall|i: int| 0 <= i < s.len() ==> !p(#[trigger] s[i]),
    ensures
        s.filter(p).len() == 0,
    decreases s.len(),
{
    reveal(Seq::filter);
    if s.len() > 0 {
        lemma_filter_none(s.drop_last(), p);
    }
}

proof fn lemma_insert_distinct(cur: Seq<PrRow>, new: Seq<PrRow>, o: Seq<char>, r: Seq<char>, f: Seq<char>)
    requires
        forall|i: int| 0 <= i < new.len() ==> in_key(#[trigger] new[i], o, r, f),
        forall|i: int, j: int| 0 <= i < j < new.len() ==> (#[trigger] new[i]).number != (#[trigger] new[j]).number,
        forall|k: int, i: int|
            0 <= k < cur.len() && 0 <= i < new.len() && in_key(#[trigger] cur[k], o, r, f)
                ==> cur[k].number != (#[trigger] new[i]).number,
    ensures
        insert_rows(cur, new) == (cur + new, true),
    decreases new.len(),
{
    if new.len() == 0 {
        assert(cur + new =~= cur);
    } else {
        if clashes(cur, new[0]) {
            let k = choose|k: int| 0 <= k < cur.len() && same_pk(#[trigger] cur[k], new[0]);
            assert(in_key(cur[k], o, r, f));
        }
        let rest = new.subrange(1, new.len() as int);
        let next = cur.push(new[0]);
        assert forall|k: int, i: int|
            0 <= k < next.len() && 0 <= i < rest.len() && in_key(#[trigger] next[k], o, r, f)
                implies next[k].number != (#[trigger] rest[i]).number by {
            assert(rest[i] == new[i + 1]);
            if k == cur.len() {
                assert(next[k] == new[0]);
            }
        }
        lemma_insert_distinct(next, rest, o, r, f);
        assert(next + rest =~= cur + new);
    }
}

/// Saving a list of pull requests under a key and loading that key gives the
/// list back, every field kept but the head commit, which comes back unset.
/// This holds when the pull requests belong to the key's repository and
/// their numbers are distinct.
pub proof fn lemma_cache_round_trip(
    rows: Seq<PrRow>,
    prs: Seq<PrView>,
    o: Seq<char>,
    r: Seq<char>,
    f: Seq<char>,
)
    requires
        forall|i: int| 0 <= i < prs.len() ==> (#[trigger] prs[i]).repo_owner == o && prs[i].repo_name == r,
        forall|i: int, j: int| 0 <= i < j < prs.len() ==> (#[trigger] prs[i]).number != (#[trigger] prs[j]).number,
    ensures
        saved(rows, prs, o, r, f).1,
        loaded(saved(rows, prs, o, r, f).0, o, r, f) == prs.map_values(
            |p: PrView| PrView { head_sha: None, ..p },
        ),
{
    let base = rows.filter(not_key_of(o, r, f));
    let new = rows_for(prs, f);
    assert forall|k: int| 0 <= k < base.len() implies !in_key(#[trigger] base[k], o, r, f) by {
        rows.lemma_filter_pred(not_key_of(o, r, f), k);
    }
    assert forall|i: int, j: int| 0 <= i < j < new.len() implies (#[trigger] new[i]).number != (#[trigger] new[j]).number by {
        assert(new[i].number == prs[i].number);
        assert(new[j].number == prs[j].number);
    }
    lemma_insert_distinct(base, new, o, r, f);
    Seq::filter_distributes_over_add(base, new, key_of(o, r, f));
    lemma_filter_none(base, key_of(o, r, f));
    lemma_filter_all(new, key_of(o, r, f));
    assert(base.filter(key_of(o, r, f)) + new =~= new);
    assert(new.map_values(|x: PrRow| pr_of(x)) =~= prs.map_values(
        |p: PrView| PrView { head_sha: None, ..p },
    ));
}

impl CacheStore {
    /// The pull requests cached under a key, in table order, without head commits.
    pub fn load_cache(&self, owner: &str, repo: &str, filter: &PrFilter) -> (r: Vec<PullRequest>)
        ensures
            prs_view(r@) == loaded(rows_view(self.prs@), owner@, repo@, filter_key(*filter)),
    {
        let key = filter.cache_key();
        let f = key.as_str();
        let ghost fv = filter_key(*filter);
        let mut out: Vec<PullRequest> = Vec::new();
        let mut i: usize = 0;
        while i < self.prs.len()
            invariant
                i <= self.prs@.len(),
                f@ == fv,
                prs_view(out@) == loaded(rows_view(self.prs@.subrange(0, i as int)), owner@, repo@, fv),
            decreases self.prs@.len() - i,
        {
            let x = &self.prs[i];
            let ghost pre = rows_view(self.prs@.subrange(0, i as int));
            proof {
                lemma_rows_push(self.prs@, i as int);
                pre.lemma_filter_push(x@, key_of(owner@, repo@, fv));
            }
            if row_in_key(x, owner, repo, f) {
                let ghost before = out@;
                out.push(to_pr(x));
                assert(prs_view(out@) =~= prs_view(before).push(pr_of(x@)));
                assert(pre.filter(key_of(owner@, repo@, fv)).push(x@).map_values(|y: PrRow| pr_of(y))
                    =~= pre.filter(key_of(owner@, repo@, fv)).map_values(|y: PrRow| pr_of(y)).push(pr_of(x@)));
            }
            i += 1;
        }
        assert(self.prs@.subrange(0, self.prs@.len() as int) =~= self.prs@);
        out
    }

    /// Replaces what is cached under a key by a freshly fetched list: the
    /// key's rows are deleted, then one row per pull request is inserted, in
    /// order. When a row's primary key is taken the save fails with
    /// `Conflict` and nothing changes: a save is never partial.
    pub fn save_cache(&mut self, prs: &Vec<PullRequest>, owner: &str, repo: &str, filter: &PrFilter) -> (r: Result<(), CacheError>)
        ensures
            (r is Ok) == saved(rows_view(old(self).prs@), prs_view(prs@), owner@, repo@, filter_key(*filter)).1,
            r is Ok ==> rows_view(final(self).prs@) == saved(
                rows_view(old(self).prs@),
                prs_view(prs@),
                owner@,
                repo@,
                filter_key(*filter),
            ).0,
            r is Err ==> r == Err::<(), CacheError>(CacheError::Conflict) && final(self).prs == old(self).prs,
            final(self).labels@ == old(self).labels@,
            final(self).version == old(self).version,
            final(self).next_label_id == old(self).next_label_id,
    {
        let key = filter.cache_key();
        let f = key.as_str();
        let ghost fv = filter_key(*filter);
        let ghost old_rows = rows_view(self.prs@);
        let mut kept: Vec<CachedPr> = Vec::new();
        let mut i: usize = 0;
        while i < self.prs.len()
            invariant
                i <= self.prs@.len(),
                f@ == fv,
                old_rows == rows_view(self.prs@),
                self.labels@ == old(self).labels@,
                self.version == old(self).version,
                self.next_label_id == old(self).next_label_id,
                old_rows == rows_view(old(self).prs@),
                rows_view(kept@) == rows_view(self.prs@.subrange(0, i as int)).filter(not_key_of(owner@, repo@, fv)),
            decreases self.prs@.len() - i,
        {
            let ghost pre = rows_view(self.prs@.subrange(0, i as int));
            proof {
                lemma_rows_push(self.prs@, i as int);
                pre.lemma_filter_push(self.prs@[i as int]@, not_key_of(owner@, repo@, fv));
            }
            if !row_in_key(&self.prs[i], owner, repo, f) {
                let ghost before = kept@;
                let x = &self.prs[i];
                let y = CachedPr {
                    number: x.number,
                    title: x.title.clone(),
                    branch: x.branch.clone(),
                    repo_owner: x.repo_owner.clone(),
                    repo_name: x.repo_name.clone(),
                    ci_status: x.ci_status,
                    filter: x.filter.clone(),
                    author: x.author.clone(),
                };
                kept.push(y);
                assert(rows_view(kept@) =~= rows_view(before).push(x@));
            }
            i += 1;
        }
        assert(self.prs@.subrange(0, self.prs@.len() as int) =~= self.prs@);
        let ghost new_rows = rows_for(prs_view(prs@), fv);
        let ghost target = insert_rows(rows_view(kept@), new_rows);
        assert(new_rows.subrange(0, new_rows.len() as int) =~= new_rows);
        assert(rows_view(kept@) == old_rows.filter(not_key_of(owner@, repo@, fv)));
        let mut j: usize = 0;
        while j < prs.len()
            invariant
                j <= prs@.len(),
                f@ == fv,
                new_rows.len() == prs@.len(),
                self.labels@ == old(self).labels@,
                self.version == old(self).version,
                self.next_label_id == old(self).next_label_id,
                target == saved(old_rows, prs_view(prs@), owner@, repo@, fv),
                fv == filter_key(*filter),
                old_rows == rows_view(old(self).prs@),
                self.prs == old(self).prs,
                new_rows == rows_for(prs_view(prs@), fv),
                insert_rows(rows_view(kept@), new_rows.subrange(j as int, new_rows.len() as int)) == target,
            decreases prs@.len() - j,
        {
            let row = to_row(&prs[j], f);
            let ghost rest = new_rows.subrange(j as int, new_rows.len() as int);
            assert(rest[0] == row@);
            if has_clash(&kept, &row) {
                assert(rest.len() > 0);
                assert(insert_rows(rows_view(kept@), rest) == (rows_view(kept@), false));
                return Err(CacheError::Conflict);
            }
            let ghost before = kept@;
            kept.push(row);
            assert(rows_view(kept@) =~= rows_view(before).push(row@));
            assert(rest.subrange(1, rest.len() as int) =~= new_rows.subrange(j + 1, new_rows.len() as int));
            j += 1;
        }
        assert(new_rows.subrange(prs@.len() as int, new_rows.len() as int) =~= Seq::<PrRow>::empty());
        self.prs = kept;
        Ok(())
    }
}

/// Label filters read from a file, keeping the first of each tuple.
pub open spec fn dedup_labels(s: Seq<LabelView>) -> Seq<LabelView>
    decreases s.len(),
{
    if s.len() == 0 {
        s
    } else {
        let l = s.last();
        label_saved(dedup_labels(s.drop_last()), l.label_name, l.repo_owner, l.repo_name, l.id)
    }
}

/// The largest id of a list of label filters, or zero.
pub open spec fn max_id(s: Seq<LabelView>) -> int
    decreases s.len(),
{
    if s.len() == 0 {
        0
    } else {
        let m = max_id(s.drop_last());
        if s.last().id > m { s.last().id as int } else { m }
    }
}

proof fn lemma_unique_filter(s: Seq<LabelView>, p: spec_fn(LabelView) -> bool)
    requires
        tuples_unique(s),
    ensures
        tuples_unique(s.filter(p)),
        forall|i: int| 0 <= i < s.filter(p).len() ==> s.contains(#[trigger] s.filter(p)[i]),
    decreases s.len(),
{
    reveal(Seq::filter);
    if s.len() > 0 {
        let d = s.drop_last();
        assert(tuples_unique(d)) by {
            assert forall|i: int, j: int| 0 <= i < j < d.len() implies !same_tuple(#[trigger] d[i], #[trigger] d[j]) by {
                assert(d[i] == s[i] && d[j] == s[j]);
            }
        }
        lemma_unique_filter(d, p);
        let f = d.filter(p);
        assert forall|i: int| 0 <= i < f.len() implies s.contains(#[trigger] f[i]) by {
            let k = choose|k: int| 0 <= k < d.len() && d[k] == f[i];
            assert(s[k] == d[k]);
        }
        if p(s.last()) {
            let g = f.push(s.last());
            assert forall|i: int, j: int| 0 <= i < j < g.len() implies !same_tuple(#[trigger] g[i], #[trigger] g[j]) by {
                if j == f.len() {
                    let k = choose|k: int| 0 <= k < d.len() && d[k] == f[i];
                    assert(s[k] == d[k]);
                    assert(!same_tuple(s[k], s[s.len() - 1]));
                } else {
                    assert(g[i] == f[i] && g[j] == f[j]);
                }
            }
            assert forall|i: int| 0 <= i < g.len() implies s.contains(#[trigger] g[i]) by {
                if i == f.len() {
                    assert(s[s.len() - 1] == g[i]);
                } else {
                    assert(g[i] == f[i]);
                }
            }
        }
    }
}

proof fn lemma_saved_unique(s: Seq<LabelView>, name: Seq<char>, o: Option<Seq<char>>, r: Option<Seq<char>>, id: i64)
    requires
        tuples_unique(s),
    ensures
        tuples_unique(label_saved(s, name, o, r, id)),
{
    if !has_tuple(s, name, o, r) {
        let t = label_saved(s, name, o, r, id);
        assert forall|i: int, j: int| 0 <= i < j < t.len() implies !same_tuple(#[trigger] t[i], #[trigger] t[j]) by {
            if j == s.len() {
                assert(t[i] == s[i]);
                if same_tuple(t[i], t[j]) {
                    assert(s[i].label_name == name && s[i].repo_owner == o && s[i].repo_name == r);
                }
            } else {
                assert(t[i] == s[i] && t[j] == s[j]);
            }
        }
    }
}

proof fn lemma_dedup_unique(s: Seq<LabelView>)
    ensures
        tuples_unique(dedup_labels(s)),
    decreases s.len(),
{
    if s.len() > 0 {
        lemma_dedup_unique(s.drop_last());
        let l = s.last();
        lemma_saved_unique(dedup_labels(s.drop_last()), l.label_name, l.repo_owner, l.repo_name, l.id);
    }
}

/// Saving the same (name, owner, repository) twice leaves exactly one label
/// filter with that tuple.
pub proof fn lemma_label_saved_twice(
    s: Seq<LabelView>,
    name: Seq<char>,
    o: Option<Seq<char>>,
    r: Option<Seq<char>>,
    id1: i64,
    id2: i64,
)
    requires
        tuples_unique(s),
    ensures
        ({
            let t = label_saved(label_saved(s, name, o, r, id1), name, o, r, id2);
            exists|i: int|
                0 <= i < t.len() && #[trigger] t[i].label_name == name && t[i].repo_owner == o && t[i].repo_name == r
                    && forall|j: int|
                    0 <= j < t.len() && (#[trigger] t[j]).label_name == name && t[j].repo_owner == o
                        && t[j].repo_name == r ==> j == i
        }),
{
    let t1 = label_saved(s, name, o, r, id1);
    lemma_saved_unique(s, name, o, r, id1);
    assert(has_tuple(t1, name, o, r)) by {
        if !has_tuple(s, name, o, r) {
            assert(t1[s.len() as int].label_name == name);
        }
    }
    let t = label_saved(t1, name, o, r, id2);
    assert(t == t1);
    let i = choose|i: int|
        0 <= i < t1.len() && (#[trigger] t1[i]).label_name == name && t1[i].repo_owner == o && t1[i].repo_name == r;
    assert forall|j: int|
        0 <= j < t.len() && (#[trigger] t[j]).label_name == name && t[j].repo_owner == o && t[j].repo_name == r
            implies j == i by {
        if j < i {
            assert(!same_tuple(t1[j], t1[i]));
        } else if i < j {
            assert(!same_tuple(t1[i], t1[j]));
        }
    }
}

fn opt_eq(a: &Option<String>, b: Option<&str>) -> (r: bool)
    ensures
        r == (opt_view(*a) == opt_str_view(b)),
{
    match (a, b) {
        (Some(x), Some(y)) => str_eq(x.as_str(), y),
        (None, None) => true,
        _ => false,
    }
}

fn to_opt_string(b: Option<&str>) -> (r: Option<String>)
    ensures
        opt_view(r) == opt_str_view(b),
{
    match b {
        Some(y) => Some(String::from_str(y)),
        None => None,
    }
}

fn label_group_of(l: &LabelFilter) -> (g: u8)
    ensures
        g as int == label_group(l@),
{
    if l.repo_owner.is_none() { 1 } else { 0 }
}

fn label_less(a: &LabelFilter, ia: usize, b: &LabelFilter, ib: usize) -> (r: bool)
    ensures
        r == label_before(a@, ia as int, b@, ib as int),
{
    let ga = label_group_of(a);
    let gb = label_group_of(b);
    if ga != gb {
        return ga < gb;
    }
    let na = chars_of(a.label_name.as_str());
    let nb = chars_of(b.label_name.as_str());
    if chars_less(&na, &nb) {
        return true;
    }
    str_eq(a.label_name.as_str(), b.label_name.as_str()) && ia < ib
}

proof fn lemma_label_before_transitive(a: LabelView, ia: int, b: LabelView, ib: int, c: LabelView, ic: int)
    requires
        label_before(a, ia, b, ib),
        label_before(b, ib, c, ic),
    ensures
        label_before(a, ia, c, ic),
{
    if label_group(a) == label_group(b) && label_group(b) == label_group(c) {
        if seq_less(a.label_name, b.label_name) && seq_less(b.label_name, c.label_name) {
            lemma_seq_less_transitive(a.label_name, b.label_name, c.label_name);
        }
    }
}

proof fn lemma_label_before_total(a: LabelView, ia: int, b: LabelView, ib: int)
    requires
        ia < ib,
    ensures
        label_before(a, ia, b, ib) || label_before(b, ib, a, ia),
        !(label_before(a, ia, b, ib) && label_before(b, ib, a, ia)),
{
    if a.label_name != b.label_name {
        lemma_seq_less_total(a.label_name, b.label_name);
    }
    lemma_seq_less_asymmetric(a.label_name, b.label_name);
    if seq_less(a.label_name, a.label_name) {
        lemma_seq_less_asymmetric(a.label_name, a.label_name);
    }
}

/// Whether opening a store with this stored version drops both data tables.
pub fn needs_reset(stored_version: Option<i32>) -> (r: bool)
    ensures
        r == (stored_version != Some(CACHE_VERSION)),
{
    match stored_version {
        Some(v) => v != CACHE_VERSION,
        None => true,
    }
}

impl CacheStore {
    /// Opens the store over the rows read from the cache file. When the
    /// stored schema version is not the expected one, both data tables are
    /// dropped: nothing of their rows is kept, label ids start over, and the
    /// version becomes the expected one. Otherwise the rows are kept, with
    /// the first label filter of each tuple.
    pub fn open(stored_version: Option<i32>, prs: Vec<CachedPr>, labels: Vec<LabelFilter>) -> (r: CacheStore)
        ensures
            r.wf(),
            r.version == CACHE_VERSION,
            stored_version != Some(CACHE_VERSION) ==> r.prs@.len() == 0 && r.labels@.len() == 0
                && r.next_label_id == 1,
            stored_version == Some(CACHE_VERSION) ==> {
                &&& rows_view(r.prs@) == rows_view(prs@)
                &&& labels_view(r.labels@) == dedup_labels(labels_view(labels@))
                &&& r.next_label_id == if max_id(labels_view(labels@)) < i64::MAX {
                    max_id(labels_view(labels@)) + 1
                } else {
                    i64::MAX as int
                }
            },
    {
        if stored_version != Some(CACHE_VERSION) {
            return CacheStore { version: CACHE_VERSION, prs: Vec::new(), labels: Vec::new(), next_label_id: 1 };
        }
        let mut kept: Vec<LabelFilter> = Vec::new();
        let mut max: i64 = 0;
        let mut i: usize = 0;
        while i < labels.len()
            invariant
                i <= labels@.len(),
                labels_view(kept@) == dedup_labels(labels_view(labels@.subrange(0, i as int))),
                max == max_id(labels_view(labels@.subrange(0, i as int))),
                max >= 0,
            decreases labels@.len() - i,
        {
            let l = &labels[i];
            let ghost pre = labels_view(labels@.subrange(0, i as int));
            assert(labels_view(labels@.subrange(0, i + 1)) =~= pre.push(l@));
            assert(pre.push(l@).drop_last() =~= pre);
            let present = self_has_tuple(&kept, l.label_name.as_str(), opt_as_str(&l.repo_owner), opt_as_str(&l.repo_name));
            if !present {
                let ghost before = kept@;
                kept.push(l.clone());
                assert(labels_view(kept@) =~= labels_view(before).push(l@));
            }
            if l.id > max {
                max = l.id;
            }
            i += 1;
        }
        assert(labels@.subrange(0, labels@.len() as int) =~= labels@);
        proof {
            lemma_dedup_unique(labels_view(labels@));
        }
        let next = if max < i64::MAX { max + 1 } else { i64::MAX };
        CacheStore { version: CACHE_VERSION, prs, labels: kept, next_label_id: next }
    }
}

fn opt_as_str(o: &Option<String>) -> (r: Option<&str>)
    ensures
        opt_str_view(r) == opt_view(*o),
{
    match o {
        Some(s) => Some(s.as_str()),
        None => None,
    }
}

fn self_has_tuple(labels: &Vec<LabelFilter>, name: &str, owner: Option<&str>, repo: Option<&str>) -> (r: bool)
    ensures
        r == has_tuple(labels_view(labels@), name@, opt_str_view(owner), opt_str_view(repo)),
{
    let mut k: usize = 0;
    while k < labels.len()
        invariant
            k <= labels@.len(),
            forall|j: int|
                0 <= j < k ==> !((#[trigger] labels_view(labels@)[j]).label_name == name@
                    && labels_view(labels@)[j].repo_owner == opt_str_view(owner)
                    && labels_view(labels@)[j].repo_name == opt_str_view(repo)),
        decreases labels@.len() - k,
    {
        let l = &labels[k];
        if str_eq(l.label_name.as_str(), name) && opt_eq(&l.repo_owner, owner) && opt_eq(&l.repo_name, repo) {
            assert(labels_view(labels@)[k as int].label_name == name@);
            return true;
        }
        k += 1;
    }
    false
}

/// Label filters other than the one with this id.
pub open spec fn id_kept(id: i64) -> spec_fn(LabelView) -> bool {
    |l: LabelView| l.id != id
}

impl CacheStore {
    /// Adds a label filter; without owner and repository it is global.
    /// Nothing changes when a filter with the same tuple exists (global
    /// ones included). The new filter takes the next id.
    pub fn save_label_filter(&mut self, label_name: &str, owner: Option<&str>, repo: Option<&str>) -> (r: Result<(), CacheError>)
        requires
            old(self).wf(),
        ensures
            final(self).wf(),
            final(self).version == old(self).version,
            final(self).prs@ == old(self).prs@,
            (labels_view(final(self).labels@), r is Ok) == label_save_outcome(
                labels_view(old(self).labels@),
                old(self).next_label_id,
                label_name@,
                opt_str_view(owner),
                opt_str_view(repo),
            ),
            has_tuple(labels_view(old(self).labels@), label_name@, opt_str_view(owner), opt_str_view(repo))
                ==> r is Ok && labels_view(final(self).labels@) == labels_view(old(self).labels@)
                && final(self).next_label_id == old(self).next_label_id,
            !has_tuple(labels_view(old(self).labels@), label_name@, opt_str_view(owner), opt_str_view(repo))
                && old(self).next_label_id == i64::MAX ==> r == Err::<(), CacheError>(CacheError::IdsExhausted)
                && labels_view(final(self).labels@) == labels_view(old(self).labels@)
                && final(self).next_label_id == old(self).next_label_id,
            !has_tuple(labels_view(old(self).labels@), label_name@, opt_str_view(owner), opt_str_view(repo))
                && old(self).next_label_id < i64::MAX ==> r is Ok && labels_view(final(self).labels@)
                == label_saved(
                labels_view(old(self).labels@),
                label_name@,
                opt_str_view(owner),
                opt_str_view(repo),
                old(self).next_label_id,
            ) && final(self).next_label_id == old(self).next_label_id + 1,
    {
        if self_has_tuple(&self.labels, label_name, owner, repo) {
            return Ok(());
        }
        if self.next_label_id == i64::MAX {
            return Err(CacheError::IdsExhausted);
        }
        let l = LabelFilter {
            id: self.next_label_id,
            label_name: String::from_str(label_name),
            repo_owner: to_opt_string(owner),
            repo_name: to_opt_string(repo),
        };
        let ghost before = labels_view(self.labels@);
        proof {
            lemma_saved_unique(before, label_name@, opt_str_view(owner), opt_str_view(repo), self.next_label_id);
        }
        self.labels.push(l);
        assert(labels_view(self.labels@) =~= before.push(l@));
        self.next_label_id = self.next_label_id + 1;
        Ok(())
    }

    /// Removes the label filter with this id, if any.
    pub fn delete_label_filter(&mut self, id: i64)
        requires
            old(self).wf(),
        ensures
            final(self).wf(),
            labels_view(final(self).labels@) == labels_view(old(self).labels@).filter(id_kept(id)),
            final(self).version == old(self).version,
            final(self).prs@ == old(self).prs@,
            final(self).next_label_id == old(self).next_label_id,
    {
        let mut kept: Vec<LabelFilter> = Vec::new();
        let mut i: usize = 0;
        while i < self.labels.len()
            invariant
                i <= self.labels@.len(),
                labels_view(kept@) == labels_view(self.labels@.subrange(0, i as int)).filter(id_kept(id)),
            decreases self.labels@.len() - i,
        {
            let ghost pre = labels_view(self.labels@.subrange(0, i as int));
            assert(labels_view(self.labels@.subrange(0, i + 1)) =~= pre.push(self.labels@[i as int]@));
            proof {
                pre.lemma_filter_push(self.labels@[i as int]@, id_kept(id));
            }
            if self.labels[i].id != id {
                let ghost before = kept@;
                kept.push(self.labels[i].clone());
                assert(labels_view(kept@) =~= labels_view(before).push(self.labels@[i as int]@));
            }
            i += 1;
        }
        assert(self.labels@.subrange(0, self.labels@.len() as int) =~= self.labels@);
        proof {
            lemma_unique_filter(labels_view(self.labels@), id_kept(id));
        }
        self.labels = kept;
    }

    /// The label filters shown for a repository: its own ones first, then
    /// the global ones, each group by name.
    pub fn load_label_filters(&self, owner: &str, repo: &str) -> (r: Vec<LabelFilter>)
        ensures
            shows_labels(r@, labels_view(self.labels@), owner@, repo@),
    {
        let ghost lv = labels_view(self.labels@);
        let some_owner = Some(owner);
        let some_repo = Some(repo);
        let mut order: Vec<usize> = Vec::new();
        let mut i: usize = 0;
        while i < self.labels.len()
            invariant
                i <= self.labels@.len(),
                lv == labels_view(self.labels@),
                opt_str_view(some_owner) == Some(owner@),
                opt_str_view(some_repo) == Some(repo@),
                forall|k: int| 0 <= k < order@.len() ==> (#[trigger] order@[k]) < i && label_visible(lv[order@[k] as int], owner@, repo@),
                forall|j: int| 0 <= j < i && label_visible(#[trigger] lv[j], owner@, repo@) ==> order@.contains(j as usize),
                forall|k1: int, k2: int|
                    0 <= k1 < k2 < order@.len() ==> label_before(
                        lv[order@[k1] as int],
                        order@[k1] as int,
                        lv[order@[k2] as int],
                        order@[k2] as int,
                    ),
            decreases self.labels@.len() - i,
        {
            let l = &self.labels[i];
            let visible = (opt_eq(&l.repo_owner, some_owner) && opt_eq(&l.repo_name, some_repo))
                || (l.repo_owner.is_none() && l.repo_name.is_none());
            assert(visible == label_visible(lv[i as int], owner@, repo@));
            if visible {
                let mut p: usize = 0;
                let mut stop = false;
                while !stop && p < order.len()
                    invariant
                        p <= order@.len(),
                        i < self.labels@.len(),
                        lv == labels_view(self.labels@),
                        forall|j: int| 0 <= j < self.labels@.len() ==> lv[j] == (#[trigger] self.labels@[j])@,
                        forall|k: int| 0 <= k < order@.len() ==> (#[trigger] order@[k]) < i,
                        forall|k: int| 0 <= k < p ==> !label_before(lv[i as int], i as int, lv[order@[k] as int], (#[trigger] order@[k]) as int),
                        stop ==> p < order@.len() && label_before(lv[i as int], i as int, lv[order@[p as int] as int], order@[p as int] as int),
                    decreases order@.len() - p, if stop { 0int } else { 1int },
                {
                    assert(lv[i as int] == self.labels@[i as int]@);
                    assert(lv[order@[p as int] as int] == self.labels@[order@[p as int] as int]@);
                    if label_less(&self.labels[i], i, &self.labels[order[p]], order[p]) {
                        stop = true;
                    } else {
                        p += 1;
                    }
                }
                let ghost before = order@;
                order.insert(p, i);
                proof {
                    assert forall|k1: int, k2: int|
                        0 <= k1 < k2 < order@.len() implies label_before(
                            lv[order@[k1] as int],
                            order@[k1] as int,
                            lv[order@[k2] as int],
                            order@[k2] as int,
                        ) by {
                        if k2 < p {
                            assert(order@[k1] == before[k1] && order@[k2] == before[k2]);
                        } else if k2 == p {
                            assert(order@[k1] == before[k1]);
                            lemma_label_before_total(lv[before[k1] as int], before[k1] as int, lv[i as int], i as int);
                        } else if k1 == p {
                            assert(order@[k2] == before[k2 - 1]);
                            assert(p < before.len());
                            assert(label_before(lv[i as int], i as int, lv[before[p as int] as int], before[p as int] as int));
                            if k2 - 1 > p {
                                lemma_label_before_transitive(
                                    lv[i as int], i as int,
                                    lv[before[p as int] as int], before[p as int] as int,
                                    lv[before[k2 - 1] as int], before[k2 - 1] as int,
                                );
                            }
                        } else if k1 < p {
                            assert(order@[k1] == before[k1] && order@[k2] == before[k2 - 1]);
                        } else {
                            assert(order@[k1] == before[k1 - 1] && order@[k2] == before[k2 - 1]);
                        }
                    }
                    assert forall|j: int| 0 <= j < i + 1 && label_visible(#[trigger] lv[j], owner@, repo@) implies order@.contains(j as usize) by {
                        if j == i {
                            assert(order@[p as int] == j);
                        } else {
                            let k = choose|k: int| 0 <= k < before.len() && before[k] == j as usize;
                            if k < p {
                                assert(order@[k] == j as usize);
                            } else {
                                assert(order@[k + 1] == j as usize);
                            }
                        }
                    }
                    assert forall|k: int| 0 <= k < order@.len() implies (#[trigger] order@[k]) < i + 1 && label_visible(lv[order@[k] as int], owner@, repo@) by {
                        if k < p {
                            assert(order@[k] == before[k]);
                        } else if k > p {
                            assert(order@[k] == before[k - 1]);
                        }
                    }
                }
            }
            i += 1;
        }
        let mut r: Vec<LabelFilter> = Vec::new();
        let mut k: usize = 0;
        while k < order.len()
            invariant
                k <= order@.len(),
                lv == labels_view(self.labels@),
                forall|j: int| 0 <= j < order@.len() ==> (#[trigger] order@[j]) < self.labels@.len(),
                r@.len() == k,
                forall|j: int| 0 <= j < k ==> (#[trigger] r@[j])@ == lv[order@[j] as int],
            decreases order@.len() - k,
        {
            r.push(self.labels[order[k]].clone());
            k += 1;
        }
        assert(label_order_ok(order@, lv, owner@, repo@));
        r
    }
}

} // verus!
