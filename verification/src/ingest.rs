//! The ingestion coordinator: which files an ingestion takes, how the
//! outcome of each write counts, and whether the revision is recorded at the
//! end.
//!
//! The coordinator does not touch the disk, the repository or the store. The
//! caller reads and parses the files, hands them over, performs one write
//! after the other and reports how each went.

use vstd::prelude::*;
use vstd::string::*;
use crate::fs::{extension_of, path_extension};
use crate::git::{FileChange, FileChangeType, FileChangeTypeView, FileChangeView, change_views};
use crate::plan::{Role, Step, StepView, StoreOp, step_views};
use crate::text::{str_eq, texts};

verus! {

/// What an ingestion is asked to do.
#[derive(Debug, Clone)]
pub struct IngestOptions {
    pub db_path: String,
    pub project_path: String,
    /// The size of the worker pool that parses; the default pool if none.
    pub threads: Option<usize>,
    /// Whether the store is emptied first.
    pub clean: bool,
    /// Whether only the files changed since the recorded revision are taken.
    pub incremental: bool,
}

/// What an ingestion did.
#[derive(Debug, Clone, Copy, PartialEq, Eq, Structural)]
pub struct IngestStats {
    /// The files whose writes all succeeded.
    pub files_processed: usize,
    /// The entity nodes that were inserted.
    pub symbols_created: usize,
    /// The edges that were inserted.
    pub edges_created: usize,
}

impl IngestOptions {
    /// Whether the ingestion tries to restrict itself to changed files: it
    /// is asked to, and the store is not emptied first.
    pub fn wants_incremental(&self) -> (yes: bool)
        ensures
            yes == (self.incremental && !self.clean),
    {
        self.incremental && !self.clean
    }
}

/// How an incremental ingestion finds its files.
#[derive(Debug, PartialEq, Eq)]
pub enum IncrementalPlan {
    /// Not possible: every file of the project is taken.
    Unavailable,
    /// The recorded revision is the current one: no file is taken, none is
    /// deleted.
    UpToDate,
    /// The files changed from the recorded revision to the current one are
    /// taken.
    Diff { from: String, to: String },
}

/// How an incremental ingestion finds its files, as mathematical values.
pub enum IncrementalPlanView {
    Unavailable,
    UpToDate,
    Diff { from: Seq<char>, to: Seq<char> },
}

impl View for IncrementalPlan {
    type V = IncrementalPlanView;

    open spec fn view(&self) -> IncrementalPlanView {
        match self {
            IncrementalPlan::Unavailable => IncrementalPlanView::Unavailable,
            IncrementalPlan::UpToDate => IncrementalPlanView::UpToDate,
            IncrementalPlan::Diff { from, to } => IncrementalPlanView::Diff { from: from@, to: to@ },
        }
    }
}

/// The way in which an incremental ingestion finds its files. It needs a
/// repository, a recorded revision and the current revision. With all
/// three, it takes nothing where the two revisions are the same and the
/// difference between them where they are not.
pub open spec fn incremental_plan_of(
    is_repository: bool,
    last_commit: Option<Seq<char>>,
    current_commit: Option<Seq<char>>,
) -> IncrementalPlanView {
    if !is_repository {
        IncrementalPlanView::Unavailable
    } else {
        match (last_commit, current_commit) {
            (Some(last), Some(current)) => if last == current {
                IncrementalPlanView::UpToDate
            } else {
                IncrementalPlanView::Diff { from: last, to: current }
            },
            _ => IncrementalPlanView::Unavailable,
        }
    }
}

/// Decides how an incremental ingestion finds its files. `last_commit` is
/// the recorded revision, if one could be read; `current_commit` the
/// current one, if it could be read.
pub fn plan_incremental(
    is_repository: bool,
    last_commit: Option<String>,
    current_commit: Option<String>,
) -> (plan: IncrementalPlan)
    ensures
        plan@ == incremental_plan_of(
            is_repository,
            match last_commit {
                Some(c) => Some(c@),
                None => None,
            },
            match current_commit {
                Some(c) => Some(c@),
                None => None,
            },
        ),
{
    if !is_repository {
        return IncrementalPlan::Unavailable;
    }
    match (last_commit, current_commit) {
        (Some(last), Some(current)) => {
            if str_eq(last.as_str(), current.as_str()) {
                IncrementalPlan::UpToDate
            } else {
                IncrementalPlan::Diff { from: last, to: current }
            }
        },
        _ => IncrementalPlan::Unavailable,
    }
}

/// Whether a changed path counts for an incremental ingestion: its
/// extension is `ts`, `tsx` or `d.ts`.
pub open spec fn typescript_change(path: Seq<char>) -> bool {
    extension_of(path) == Some("ts"@) || extension_of(path) == Some("tsx"@) || extension_of(path)
        == Some("d.ts"@)
}

/// The paths that a list of changes gives to parse: those added, modified
/// or renamed to, in order.
pub open spec fn paths_to_process(changes: Seq<FileChangeView>) -> Seq<Seq<char>>
    decreases changes.len(),
{
    if changes.len() == 0 {
        Seq::empty()
    } else {
        let before = paths_to_process(changes.drop_last());
        let change = changes.last();
        if !typescript_change(change.path) {
            before
        } else {
            match change.change_type {
                FileChangeTypeView::Deleted => before,
                _ => before.push(change.path),
            }
        }
    }
}

/// The paths that a list of changes gives to delete: those deleted or
/// renamed from, in order.
pub open spec fn paths_to_delete(changes: Seq<FileChangeView>) -> Seq<Seq<char>>
    decreases changes.len(),
{
    if changes.len() == 0 {
        Seq::empty()
    } else {
        let before = paths_to_delete(changes.drop_last());
        let change = changes.last();
        if !typescript_change(change.path) {
            before
        } else {
            match change.change_type {
                FileChangeTypeView::Deleted => before.push(change.path),
                FileChangeTypeView::Renamed { old_path } => before.push(old_path),
                _ => before,
            }
        }
    }
}

/// The files that an incremental ingestion parses and those that it
/// deletes from the store.
#[derive(Debug)]
pub struct IncrementalChanges {
    pub files_to_process: Vec<String>,
    pub files_to_delete: Vec<String>,
}

fn is_typescript_change(path: &str) -> (yes: bool)
    ensures
        yes == typescript_change(path@),
{
    match path_extension(path) {
        Some(ext) => str_eq(ext.as_str(), "ts") || str_eq(ext.as_str(), "tsx") || str_eq(
            ext.as_str(),
            "d.ts",
        ),
        None => false,
    }
}

/// Parts the changes between two revisions into the files to parse and the
/// files to delete. A change whose path is no TypeScript path is left out.
pub fn get_incremental_changes(changes: &Vec<FileChange>) -> (parted: IncrementalChanges)
    ensures
        texts(parted.files_to_process@) == paths_to_process(change_views(changes@)),
        texts(parted.files_to_delete@) == paths_to_delete(change_views(changes@)),
{
    let ghost all = change_views(changes@);
    let mut files_to_process: Vec<String> = Vec::new();
    let mut files_to_delete: Vec<String> = Vec::new();
    let n = changes.len();
    let mut i: usize = 0;
    assert(texts(files_to_process@) =~= paths_to_process(all.take(0)));
    assert(texts(files_to_delete@) =~= paths_to_delete(all.take(0)));
    while i < n
        invariant
            n == changes@.len(),
            i <= n,
            all == change_views(changes@),
            texts(files_to_process@) == paths_to_process(all.take(i as int)),
            texts(files_to_delete@) == paths_to_delete(all.take(i as int)),
        decreases n - i,
    {
        proof {
            assert(all.take(i as int + 1).drop_last() =~= all.take(i as int));
            assert(all.take(i as int + 1).last() == changes@[i as int]@);
        }
        let change = &changes[i];
        let ghost kept = files_to_process@;
        let ghost gone = files_to_delete@;
        if is_typescript_change(change.path.as_str()) {
            match &change.change_type {
                FileChangeType::Added => {
                    let path = change.path.clone();
                    files_to_process.push(path);
                    assert(texts(files_to_process@) =~= texts(kept).push(path@));
                },
                FileChangeType::Modified => {
                    let path = change.path.clone();
                    files_to_process.push(path);
                    assert(texts(files_to_process@) =~= texts(kept).push(path@));
                },
                FileChangeType::Deleted => {
                    let path = change.path.clone();
                    files_to_delete.push(path);
                    assert(texts(files_to_delete@) =~= texts(gone).push(path@));
                },
                FileChangeType::Renamed { old_path } => {
                    let old = old_path.clone();
                    files_to_delete.push(old);
                    assert(texts(files_to_delete@) =~= texts(gone).push(old@));
                    let path = change.path.clone();
                    files_to_process.push(path);
                    assert(texts(files_to_process@) =~= texts(kept).push(path@));
                },
            }
        }
        i = i + 1;
    }
    assert(all.take(n as int) =~= all);
    IncrementalChanges { files_to_process, files_to_delete }
}

/// The files of an incremental ingestion: none to parse and none to delete
/// where the store is up to date, the parted changes where the difference
/// between the revisions could be read. Where it could not, or where the
/// ingestion cannot be incremental at all, there is no such selection and
/// every file of the project is taken.
pub open spec fn incremental_selection(
    plan: IncrementalPlanView,
    diff: Option<Seq<FileChangeView>>,
) -> Option<(Seq<Seq<char>>, Seq<Seq<char>>)> {
    match plan {
        IncrementalPlanView::Unavailable => None,
        IncrementalPlanView::UpToDate => Some((Seq::empty(), Seq::empty())),
        IncrementalPlanView::Diff { from, to } => match diff {
            Some(changes) => Some((paths_to_process(changes), paths_to_delete(changes))),
            None => None,
        },
    }
}

/// Chooses the files of an incremental ingestion. `diff` holds the changes
/// from the recorded revision to the current one where the plan asked for
/// them and they could be read.
pub fn get_incremental_files(plan: &IncrementalPlan, diff: Option<Vec<FileChange>>) -> (selection:
    Option<IncrementalChanges>)
    ensures
        match selection {
            Some(parted) => incremental_selection(
                plan@,
                match diff {
                    Some(changes) => Some(change_views(changes@)),
                    None => None,
                },
            ) == Some((texts(parted.files_to_process@), texts(parted.files_to_delete@))),
            None => incremental_selection(
                plan@,
                match diff {
                    Some(changes) => Some(change_views(changes@)),
                    None => None,
                },
            ) is None,
        },
{
    match plan {
        IncrementalPlan::Unavailable => None,
        IncrementalPlan::UpToDate => {
            let files_to_process: Vec<String> = Vec::new();
            let files_to_delete: Vec<String> = Vec::new();
            assert(texts(files_to_process@) =~= Seq::<Seq<char>>::empty());
            assert(texts(files_to_delete@) =~= Seq::<Seq<char>>::empty());
            Some(IncrementalChanges { files_to_process, files_to_delete })
        },
        IncrementalPlan::Diff { from, to } => match diff {
            Some(changes) => Some(get_incremental_changes(&changes)),
            None => None,
        },
    }
}

/// Whether a step with this role begins a batch of its own, and so ends
/// the batch of the file before it.
pub open spec fn starts_batch(role: Role) -> bool {
    role != Role::FileNode && role != Role::Symbol && role != Role::FileEdge
}

/// The end of the batch that step `i` lies in or begins: the first index
/// from `i` on at which a batch starts, or the number of steps.
pub open spec fn batch_end(steps: Seq<StepView>, i: int) -> int
    decreases steps.len() - i,
{
    if i < 0 || i >= steps.len() {
        steps.len() as int
    } else if starts_batch(steps[i].role) {
        i
    } else {
        batch_end(steps, i + 1)
    }
}

/// The state of an ingestion, as mathematical values.
pub struct IngestionView {
    /// The writes of the ingestion, in order.
    pub steps: Seq<StepView>,
    /// The index of the write that is due.
    pub cursor: int,
    pub stats: IngestStats,
    /// Whether a write of a file's batch failed.
    pub had_errors: bool,
    /// Whether a write for a synthetic node failed.
    pub aborted: bool,
}

impl IngestionView {
    /// The write that is due: none once all are done or the ingestion is
    /// aborted.
    pub open spec fn current(self) -> Option<StepView> {
        if self.aborted || self.cursor < 0 || self.cursor >= self.steps.len() {
            None
        } else {
            Some(self.steps[self.cursor])
        }
    }

    /// The statistics after a write of a file's batch has succeeded: an
    /// entity counts a symbol, an edge counts an edge, and the last write
    /// of a batch counts the file.
    pub open spec fn counted(self, role: Role) -> IngestStats {
        IngestStats {
            files_processed: if batch_end(self.steps, self.cursor + 1) == self.cursor + 1 {
                (self.stats.files_processed + 1) as usize
            } else {
                self.stats.files_processed
            },
            symbols_created: if role == Role::Symbol {
                (self.stats.symbols_created + 1) as usize
            } else {
                self.stats.symbols_created
            },
            edges_created: if role == Role::FileEdge {
                (self.stats.edges_created + 1) as usize
            } else {
                self.stats.edges_created
            },
        }
    }

    /// The state after the write that is due has been performed, `ok`
    /// telling whether it succeeded.
    ///
    /// A removal is passed whatever its outcome. A failed write for a
    /// synthetic node aborts the ingestion. A failed write of a file's
    /// batch sets `had_errors` and skips what is left of that batch. An
    /// edge between files counts where it succeeds and is passed where it
    /// fails.
    pub open spec fn after(self, ok: bool) -> IngestionView {
        match self.current() {
            None => self,
            Some(step) => match step.role {
                Role::Removal => IngestionView { cursor: self.cursor + 1, ..self },
                Role::Synthetic => if ok {
                    IngestionView { cursor: self.cursor + 1, ..self }
                } else {
                    IngestionView { aborted: true, ..self }
                },
                Role::CrossEdge => IngestionView {
                    cursor: self.cursor + 1,
                    stats: IngestStats {
                        edges_created: if ok {
                            (self.stats.edges_created + 1) as usize
                        } else {
                            self.stats.edges_created
                        },
                        ..self.stats
                    },
                    ..self
                },
                _ => if ok {
                    IngestionView {
                        cursor: self.cursor + 1,
                        stats: self.counted(step.role),
                        ..self
                    }
                } else {
                    IngestionView {
                        cursor: batch_end(self.steps, self.cursor + 1),
                        had_errors: true,
                        ..self
                    }
                },
            },
        }
    }

    /// Whether the ingestion has nothing left to write.
    pub open spec fn finished(self) -> bool {
        self.current() is None
    }

    /// Whether the state is one that an ingestion can be in: the cursor
    /// lies within the writes, and no more has been counted than there
    /// were writes so far, which are no more than a list can hold.
    pub open spec fn wf(self) -> bool {
        &&& 0 <= self.cursor <= self.steps.len() <= usize::MAX
        &&& self.stats.files_processed <= self.cursor
        &&& self.stats.symbols_created <= self.cursor
        &&& self.stats.edges_created <= self.cursor
    }
}

/// The end of a batch lies between the index it is asked for and the
/// number of steps.
pub proof fn lemma_batch_end_bounds(steps: Seq<StepView>, i: int)
    requires
        0 <= i <= steps.len(),
    ensures
        i <= batch_end(steps, i) <= steps.len(),
    decreases steps.len() - i,
{
    if i < steps.len() && !starts_batch(steps[i].role) {
        lemma_batch_end_bounds(steps, i + 1);
    }
}

/// An ingestion under way: its writes, the one that is due, and what has
/// been counted so far.
pub struct Ingestion {
    steps: Vec<Step>,
    cursor: usize,
    stats: IngestStats,
    had_errors: bool,
    aborted: bool,
}

impl View for Ingestion {
    type V = IngestionView;

    closed spec fn view(&self) -> IngestionView {
        IngestionView {
            steps: step_views(self.steps@),
            cursor: self.cursor as int,
            stats: self.stats,
            had_errors: self.had_errors,
            aborted: self.aborted,
        }
    }
}

impl Ingestion {
    #[verifier::type_invariant]
    spec fn well_formed(self) -> bool {
        &&& self.cursor <= self.steps@.len()
        &&& self.stats.files_processed <= self.cursor
        &&& self.stats.symbols_created <= self.cursor
        &&& self.stats.edges_created <= self.cursor
    }

    /// An ingestion that has the given writes before it and has counted
    /// nothing yet.
    pub fn new(steps: Vec<Step>) -> (ingestion: Ingestion)
        ensures
            ingestion@ == (IngestionView {
                steps: step_views(steps@),
                cursor: 0,
                stats: IngestStats { files_processed: 0, symbols_created: 0, edges_created: 0 },
                had_errors: false,
                aborted: false,
            }),
            ingestion@.wf(),
    {
        assert(steps@.len() == steps.len());
        Ingestion {
            steps,
            cursor: 0,
            stats: IngestStats { files_processed: 0, symbols_created: 0, edges_created: 0 },
            had_errors: false,
            aborted: false,
        }
    }

    /// The write that is due, or nothing once the ingestion is finished.
    pub fn current(&self) -> (op: Option<&StoreOp>)
        ensures
            match op {
                Some(o) => self@.current() is Some && self@.current()->0.op == o@,
                None => self@.current() is None,
            },
    {
        proof {
            use_type_invariant(self);
        }
        if self.aborted || self.cursor >= self.steps.len() {
            None
        } else {
            Some(&self.steps[self.cursor].op)
        }
    }

    /// Takes note of the outcome of the write that is due and moves on.
    /// Does nothing once the ingestion is finished.
    pub fn report(&mut self, ok: bool)
        ensures
            final(self)@ == old(self)@.after(ok),
            final(self)@.wf(),
    {
        proof {
            use_type_invariant(&*self);
            assert(self.steps@.len() == self.steps.len());
            lemma_report_makes_progress(self@, ok);
        }
        if self.aborted || self.cursor >= self.steps.len() {
            return ;
        }
        let ghost all = step_views(self.steps@);
        let role = self.steps[self.cursor].role;
        assert(all[self.cursor as int].role == role);
        match role {
            Role::Removal => {
                self.cursor = self.cursor + 1;
            },
            Role::Synthetic => {
                if ok {
                    self.cursor = self.cursor + 1;
                } else {
                    self.aborted = true;
                }
            },
            Role::CrossEdge => {
                self.cursor = self.cursor + 1;
                if ok {
                    self.stats.edges_created = self.stats.edges_created + 1;
                }
            },
            _ => {
                if ok {
                    let next = self.cursor + 1;
                    let last = next >= self.steps.len() || !continues_batch(
                        self.steps[next].role,
                    );
                    proof {
                        if next < self.steps@.len() {
                            assert(all[next as int].role == self.steps@[next as int].role);
                            lemma_batch_end_bounds(all, next as int + 1);
                        }
                    }
                    self.cursor = next;
                    if role == Role::Symbol {
                        self.stats.symbols_created = self.stats.symbols_created + 1;
                    }
                    if role == Role::FileEdge {
                        self.stats.edges_created = self.stats.edges_created + 1;
                    }
                    if last {
                        self.stats.files_processed = self.stats.files_processed + 1;
                    }
                    } else {
                    let mut end = self.cursor + 1;
                    while end < self.steps.len() && continues_batch(self.steps[end].role)
                        invariant
                            self.cursor < end <= self.steps@.len(),
                            all == step_views(self.steps@),
                            batch_end(all, self.cursor + 1) == batch_end(all, end as int),
                        decreases self.steps@.len() - end,
                    {
                        assert(all[end as int].role == self.steps@[end as int].role);
                        end = end + 1;
                    }
                    proof {
                        if end < self.steps@.len() {
                            assert(all[end as int].role == self.steps@[end as int].role);
                        }
                    }
                    self.had_errors = true;
                    self.cursor = end;
                    }
            },
        }
    }

    /// What has been counted so far.
    pub fn stats(&self) -> (stats: IngestStats)
        ensures
            stats == self@.stats,
    {
        self.stats
    }

    /// Whether a write of a file's batch has failed.
    pub fn had_errors(&self) -> (yes: bool)
        ensures
            yes == self@.had_errors,
    {
        self.had_errors
    }

    /// Whether a write for a synthetic node has failed, which ends the
    /// ingestion with that failure.
    pub fn is_aborted(&self) -> (yes: bool)
        ensures
            yes == self@.aborted,
    {
        self.aborted
    }

    /// The revision to record as `last_commit` at the end, if any: the
    /// current revision, where no write of a file's batch failed, the
    /// ingestion was not aborted, the project is a repository and its
    /// revision could be read. Where nothing is returned, the recorded
    /// revision stays as it is.
    pub fn commit_to_record(&self, is_repository: bool, head: Option<String>) -> (commit: Option<
        String,
    >)
        ensures
            commit == revision_to_record(self@.had_errors || self@.aborted, is_repository, head),
    {
        if self.had_errors || self.aborted || !is_repository {
            None
        } else {
            head
        }
    }
}

/// The revision that an ingestion records at its end: the current one,
/// where the ingestion had no errors and the project is a repository whose
/// revision could be read; none otherwise.
pub open spec fn revision_to_record(had_errors: bool, is_repository: bool, head: Option<String>) -> Option<
    String,
> {
    if had_errors || !is_repository {
        None
    } else {
        head
    }
}

fn continues_batch(role: Role) -> (yes: bool)
    ensures
        yes == !starts_batch(role),
{
    role == Role::FileNode || role == Role::Symbol || role == Role::FileEdge
}

/// A report keeps the state well formed. It moves an unfinished ingestion
/// on: it aborts it or moves the cursor forward, never beyond the last
/// write. Errors that were noted stay noted, and nothing that was counted
/// is taken back.
pub proof fn lemma_report_makes_progress(state: IngestionView, ok: bool)
    requires
        state.wf(),
    ensures
        state.after(ok).wf(),
        state.after(ok).steps == state.steps,
        state.current() is Some ==> state.after(ok).aborted || state.after(ok).cursor
            > state.cursor,
        state.had_errors ==> state.after(ok).had_errors,
        state.after(ok).stats.files_processed >= state.stats.files_processed,
        state.after(ok).stats.symbols_created >= state.stats.symbols_created,
        state.after(ok).stats.edges_created >= state.stats.edges_created,
{
    if state.cursor < state.steps.len() {
        lemma_batch_end_bounds(state.steps, state.cursor + 1);
    }
}

/// Only a failed write of a file's batch notes an error, and only a failed
/// write for a synthetic node aborts: a report of success does neither.
pub proof fn lemma_success_notes_no_error(state: IngestionView)
    ensures
        state.after(true).had_errors == state.had_errors,
        state.after(true).aborted == state.aborted,
{
}

/// The revision is recorded exactly where the ingestion had no errors, the
/// project is a repository and its revision could be read; it is then the
/// current revision. After an ingestion with errors nothing is recorded.
pub proof fn lemma_revision_recorded_iff_clean(
    had_errors: bool,
    is_repository: bool,
    head: Option<String>,
)
    ensures
        had_errors ==> revision_to_record(had_errors, is_repository, head) is None,
        !had_errors && is_repository ==> revision_to_record(had_errors, is_repository, head)
            == head,
        revision_to_record(had_errors, is_repository, head) is Some <==> (!had_errors
            && is_repository && head is Some),
{
}

} // verus!
