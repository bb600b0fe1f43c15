//! The todo aggregate: durable, project-scoped work items agents hand off and coordinate around.
//!
//! A todo is **durable** — it survives an app restart, so launch reconciliation never clears the
//! todo (only its process-owned *lock*). A todo carries a small document ([`TodoDoc`]): a title, a
//! free-form Markdown body, and a lifecycle status. The document is **revision-guarded**
//! (optimistic concurrency): an [`update`](Todos::update) carries the revision it expects, and a
//! stale one is refused rather than clobbering a newer edit. Around the document sit live columns
//! the dedicated operations mutate — **tags**, **blockers** (a todo cannot be completed while a
//! blocker is still open — the barrier), **comments**, and a process-owned **lock**.

use vstd::prelude::*;

use crate::ids::{ProcessId, ProjectId, TodoId};
use crate::todo_comment::{comment_views, Comment, CommentV};
use crate::todo_doc::{doc_is_valid, validation_message, DocV, TodoDoc, TodoStatus};
use crate::todo_repo::{
    find, in_project, locked_for, lookup, moved_to, remove_all, replaced, str_views, unlocked_for,
    unmet, with_doc, add_once, RowV, StoreError, StoredTodo, TodoRepo, TodoWriteResult,
    sorted_strictly, tags_in, held_by, released, locked_count, unlocked,
};

verus! {

/// A todo as a caller reads it: its durable id, its document, its tags, the ids of the todos that
/// barrier it and the subset still unmet, whether it is blocked, its comments, the process holding its
/// lock (if any), and the revision to guard the next document write with.
#[derive(Clone, Debug, PartialEq, Eq)]
pub struct TodoView {
    pub id: TodoId,
    pub doc: TodoDoc,
    pub tags: Vec<String>,
    pub blockers: Vec<TodoId>,
    /// The blockers that still exist and are not done — empty once the todo is free to complete.
    pub blocked_by: Vec<TodoId>,
    /// Whether the todo is currently gated (`blocked_by` non-empty), surfaced for convenience.
    pub blocked: bool,
    pub comments: Vec<Comment>,
    pub locked_by: Option<ProcessId>,
    pub revision: u64,
}

/// A todo view as contracts see it.
pub ghost struct ViewV {
    pub id: TodoId,
    pub doc: DocV,
    pub tags: Seq<Seq<char>>,
    pub blockers: Seq<TodoId>,
    pub blocked_by: Seq<TodoId>,
    pub blocked: bool,
    pub comments: Seq<CommentV>,
    pub locked_by: Option<ProcessId>,
    pub revision: u64,
}

impl View for TodoView {
    type V = ViewV;

    open spec fn view(&self) -> ViewV {
        ViewV {
            id: self.id,
            doc: self.doc@,
            tags: str_views(self.tags@),
            blockers: self.blockers@,
            blocked_by: self.blocked_by@,
            blocked: self.blocked,
            comments: comment_views(self.comments@),
            locked_by: self.locked_by,
            revision: self.revision,
        }
    }
}

/// A todo in a listing: enough to scan and pick one without fetching every document.
#[derive(Clone, Debug, PartialEq, Eq)]
pub struct TodoSummary {
    pub id: TodoId,
    pub title: String,
    pub status: TodoStatus,
    pub tags: Vec<String>,
    pub blocked: bool,
    pub locked_by: Option<ProcessId>,
    pub revision: u64,
}

/// A todo summary as contracts see it.
pub ghost struct SummaryV {
    pub id: TodoId,
    pub title: Seq<char>,
    pub status: TodoStatus,
    pub tags: Seq<Seq<char>>,
    pub blocked: bool,
    pub locked_by: Option<ProcessId>,
    pub revision: u64,
}

impl View for TodoSummary {
    type V = SummaryV;

    open spec fn view(&self) -> SummaryV {
        SummaryV {
            id: self.id,
            title: self.title@,
            status: self.status,
            tags: str_views(self.tags@),
            blocked: self.blocked,
            locked_by: self.locked_by,
            revision: self.revision,
        }
    }
}

/// Why a todo create, update, complete, completion report, or blocker change was refused — each
/// the caller's to fix.
#[derive(Debug)]
pub enum TodoError {
    /// The document failed validation (a blank title or an over-cap body); the message names every
    /// problem.
    Invalid(String),
    /// The action named a todo that does not exist in the project.
    NotFound,
    /// An update expected a different revision than the one on record — a concurrent edit landed
    /// first, so the write was refused. `expected` is what the caller passed; `actual` the row's.
    Conflict { expected: Option<u64>, actual: Option<u64> },
    /// Completion was refused because the todo still has unmet blockers (the barrier). `by` lists
    /// them.
    Blocked { by: Vec<TodoId> },
    /// A blocker referenced a todo that does not exist in the project.
    UnknownBlocker,
    /// A todo cannot block itself.
    SelfBlocker,
    /// A different task already recorded this todo's completion.
    CompletionConflict,
    /// The write would reopen a todo whose completion is recorded, or alter its result comment.
    CompletionProtected,
    /// A durable read or write failed.
    Store(StoreError),
}

/// The view a caller gets of row `r` of the store `rows`: its unmet blockers resolved against the
/// store.
pub open spec fn view_of(rows: Seq<RowV>, r: RowV) -> ViewV {
    let blocked_by = unmet(rows, r.project, r.blockers);
    ViewV {
        id: r.id,
        doc: r.doc,
        tags: r.tags,
        blockers: r.blockers,
        blocked_by,
        blocked: blocked_by.len() > 0,
        comments: r.comments,
        locked_by: r.locked_by,
        revision: r.revision,
    }
}

/// The summary a listing gives of row `r` of the store `rows`.
pub open spec fn summary_of(rows: Seq<RowV>, r: RowV) -> SummaryV {
    SummaryV {
        id: r.id,
        title: r.doc.title,
        status: r.doc.status,
        tags: r.tags,
        blocked: unmet(rows, r.project, r.blockers).len() > 0,
        locked_by: r.locked_by,
        revision: r.revision,
    }
}

/// The view of an optional row.
pub open spec fn view_of_opt(rows: Seq<RowV>, o: Option<RowV>) -> Option<ViewV> {
    match o {
        Some(r) => Some(view_of(rows, r)),
        None => None,
    }
}

/// The views of an optional todo view.
pub open spec fn opt_view(o: Option<TodoView>) -> Option<ViewV> {
    match o {
        Some(v) => Some(v@),
        None => None,
    }
}

/// A blocker `b` is refused for todo `id`: it is the todo itself or does not exist in `project`.
pub open spec fn bad_blocker(rows: Seq<RowV>, project: ProjectId, id: TodoId, b: TodoId) -> bool {
    b == id || lookup(rows, project, b) is None
}

/// The first refused blocker of `bs` is at `k`.
pub open spec fn first_bad_blocker_at(
    rows: Seq<RowV>,
    project: ProjectId,
    id: TodoId,
    bs: Seq<TodoId>,
    k: int,
) -> bool {
    &&& 0 <= k < bs.len()
    &&& bad_blocker(rows, project, id, bs[k])
    &&& forall|j: int| 0 <= j < k ==> !bad_blocker(rows, project, id, #[trigger] bs[j])
}

/// No blocker of `bs` is refused.
pub open spec fn no_bad_blocker(rows: Seq<RowV>, project: ProjectId, id: TodoId, bs: Seq<TodoId>) -> bool {
    forall|j: int| 0 <= j < bs.len() ==> !bad_blocker(rows, project, id, #[trigger] bs[j])
}

/// What an operation that rewrites row `i` into `changed` (or reports that the todo is absent)
/// leaves behind and answers: the rewritten row's view; `None` and no change when `i` is absent;
/// or, on a store failure, either no change or the rewrite.
pub open spec fn row_change(
    before: Seq<RowV>,
    after: Seq<RowV>,
    i: int,
    changed: RowV,
    r: Result<Option<TodoView>, StoreError>,
) -> bool {
    match r {
        Ok(Some(v)) => i >= 0 && after == replaced(before, i, changed) && v@ == view_of(
            after,
            changed,
        ),
        Ok(None) => i < 0 && after == before,
        Err(_) => after == before || (i >= 0 && after == replaced(before, i, changed)),
    }
}

/// The todo aggregate over a durable [`TodoRepo`]. The repo persists and makes each
/// state-dependent step atomic; this aggregate owns the document validation, the revision-guard
/// policy, the blocker barrier, and the completion protection.
pub struct Todos<R: TodoRepo> {
    pub(crate) repo: R,
}

impl<R: TodoRepo> Todos<R> {
    /// The store's rows, in creation order.
    pub closed spec fn rows(&self) -> Seq<RowV> {
        self.repo.rows()
    }

    /// Whether the store keeps what is written to it.
    pub closed spec fn durable(&self) -> bool {
        self.repo.durable()
    }

    /// The aggregate's internal consistency: its store's.
    pub closed spec fn wf(&self) -> bool {
        self.repo.wf()
    }

    /// Whether the store never reports a failure of its own (see [`TodoRepo::infallible`]).
    pub closed spec fn infallible(&self) -> bool {
        self.repo.infallible()
    }

    /// How many more fresh todo ids the store can assign.
    pub closed spec fn ids_left(&self) -> nat {
        self.repo.ids_left()
    }

    /// What the aggregate's view of its store is made of.
    pub(crate) proof fn lemma_store(&self)
        ensures
            self.rows() == self.repo.rows(),
            self.durable() == self.repo.durable(),
            self.wf() == self.repo.wf(),
            self.infallible() == self.repo.infallible(),
            self.ids_left() == self.repo.ids_left(),
    {
    }

    /// Builds the aggregate over its durable store.
    pub fn new(repo: R) -> (t: Self)
        requires
            repo.wf(),
        ensures
            t.wf(),
            t.rows() == repo.rows(),
            t.durable() == repo.durable(),
            t.infallible() == repo.infallible(),
            t.ids_left() == repo.ids_left(),
    {
        Todos { repo }
    }

    /// The store the aggregate writes through.
    pub fn repo(&self) -> (r: &R)
        ensures
            r.rows() == self.rows(),
            r.wf() == self.wf(),
    {
        &self.repo
    }

    /// Builds a [`TodoView`] from a stored row, resolving its unmet blockers.
    pub(crate) fn view(&self, stored: StoredTodo) -> (r: Result<TodoView, StoreError>)
        requires
            self.wf(),
        ensures
            self.infallible() ==> r is Ok,
            r matches Ok(v) ==> v@ == view_of(self.rows(), stored@),
            stored@.blockers.len() == 0 ==> r is Ok,
    {
        let blocked_by = if stored.blockers.len() == 0 {
            proof {
                assert(unmet(self.rows(), stored@.project, stored@.blockers) == Seq::<
                    TodoId,
                >::empty());
            }
            Vec::new()
        } else {
            self.repo.unmet_blockers(stored.project, &stored.blockers)?
        };
        let blocked = blocked_by.len() > 0;
        Ok(
            TodoView {
                id: stored.id,
                doc: stored.doc,
                tags: stored.tags,
                blockers: stored.blockers,
                blocked_by,
                blocked,
                comments: stored.comments,
                locked_by: stored.locked_by,
                revision: stored.revision,
            },
        )
    }

    /// Builds a [`TodoSummary`] from a stored row, resolving whether it is blocked.
    fn summary(&self, stored: StoredTodo) -> (r: Result<TodoSummary, StoreError>)
        requires
            self.wf(),
        ensures
            self.infallible() ==> r is Ok,
            r matches Ok(s) ==> s@ == summary_of(self.rows(), stored@),
    {
        let blocked_by = self.repo.unmet_blockers(stored.project, &stored.blockers)?;
        Ok(
            TodoSummary {
                id: stored.id,
                title: stored.doc.title,
                status: stored.doc.status,
                tags: stored.tags,
                blocked: blocked_by.len() > 0,
                locked_by: stored.locked_by,
                revision: stored.revision,
            },
        )
    }

    /// Projects an optional stored row to an optional view.
    pub(crate) fn view_opt(&self, stored: Option<StoredTodo>) -> (r: Result<Option<TodoView>, StoreError>)
        requires
            self.wf(),
        ensures
            self.infallible() ==> r is Ok,
            r matches Ok(o) ==> opt_view(o) == view_of_opt(
                self.rows(),
                crate::todo_repo::row_view_opt(stored),
            ),
            stored is None ==> r == Ok::<Option<TodoView>, StoreError>(None),
    {
        match stored {
            Some(stored) => Ok(Some(self.view(stored)?)),
            None => Ok(None),
        }
    }

    /// Creates a todo in `project` from `doc` (validated first), returning it at revision 1. A
    /// malformed document is [`TodoError::Invalid`] and creates nothing.
    pub fn create(&mut self, project: ProjectId, doc: TodoDoc) -> (r: Result<TodoView, TodoError>)
        requires
            old(self).wf(),
        ensures
            final(self).wf(),
            final(self).durable() == old(self).durable(),
            final(self).infallible() == old(self).infallible(),
            final(self).ids_left() + 1 >= old(self).ids_left(),
            match r {
                Ok(v) => {
                    let row = crate::todo_repo::fresh_row(v.id, project, doc@);
                    &&& doc_is_valid(doc@)
                    &&& v@ == view_of(final(self).rows(), row)
                    &&& forall|i: int|
                        0 <= i < old(self).rows().len() ==> old(self).rows()[i].id.0 < v.id.0
                    &&& final(self).rows() == if old(self).durable() {
                        old(self).rows().push(row)
                    } else {
                        old(self).rows()
                    }
                },
                Err(TodoError::Invalid(message)) => {
                    &&& !doc_is_valid(doc@)
                    &&& message@ == validation_message(doc@)
                    &&& final(self).rows() == old(self).rows()
                },
                Err(TodoError::Store(_)) => {
                    &&& doc_is_valid(doc@)
                    &&& final(self).rows() == old(self).rows()
                    &&& old(self).infallible() ==> old(self).ids_left() == 0
                },
                Err(_) => false,
            },
    {
        match doc.validate() {
            Ok(()) => {},
            Err(message) => {
                return Err(TodoError::Invalid(message));
            },
        }
        let stored = match self.repo.create(project, &doc) {
            Ok(stored) => stored,
            Err(e) => {
                return Err(TodoError::Store(e));
            },
        };
        match self.view(stored) {
            Ok(v) => Ok(v),
            Err(e) => Err(TodoError::Store(e)),
        }
    }

    /// The todo `id` in `project`, or `None` if there is none.
    pub fn get(&self, project: ProjectId, id: TodoId) -> (r: Result<Option<TodoView>, StoreError>)
        requires
            self.wf(),
        ensures
            self.infallible() ==> r is Ok,
            r matches Ok(o) ==> opt_view(o) == view_of_opt(self.rows(), lookup(self.rows(), project, id)),
    {
        let stored = self.repo.read(project, id)?;
        self.view_opt(stored)
    }

    /// Every todo in `project` as a one-line summary, in creation order.
    pub fn list(&self, project: ProjectId) -> (r: Result<Vec<TodoSummary>, StoreError>)
        requires
            self.wf(),
        ensures
            self.infallible() ==> r is Ok,
            r matches Ok(v) ==> v@.map_values(|s: TodoSummary| s@) == in_project(
                self.rows(),
                project,
            ).map_values(|row: RowV| summary_of(self.rows(), row)),
    {
        let rows = self.repo.list(project)?;
        let ghost target = crate::todo_repo::row_views(rows@);
        let mut out: Vec<TodoSummary> = Vec::new();
        let mut k: usize = 0;
        while k < rows.len()
            invariant
                self.wf(),
                target == crate::todo_repo::row_views(rows@),
                k <= rows@.len(),
                out@.len() == k,
                forall|j: int| 0 <= j < k ==> (#[trigger] out@[j])@ == summary_of(self.rows(), target[j]),
            decreases rows@.len() - k,
        {
            let s = self.summary(rows[k].duplicate())?;
            out.push(s);
            k += 1;
        }
        assert(out@.map_values(|s: TodoSummary| s@) =~= in_project(self.rows(), project).map_values(
            |row: RowV| summary_of(self.rows(), row),
        ));
        Ok(out)
    }

    /// Every todo in `project` as a full [`TodoView`] (blockers, comments, lock owner, the derived
    /// `blocked` flag), in creation order — the read the to-do board projects.
    pub fn views(&self, project: ProjectId) -> (r: Result<Vec<TodoView>, StoreError>)
        requires
            self.wf(),
        ensures
            self.infallible() ==> r is Ok,
            r matches Ok(v) ==> v@.map_values(|t: TodoView| t@) == in_project(
                self.rows(),
                project,
            ).map_values(|row: RowV| view_of(self.rows(), row)),
    {
        let rows = self.repo.list(project)?;
        let ghost target = crate::todo_repo::row_views(rows@);
        let mut out: Vec<TodoView> = Vec::new();
        let mut k: usize = 0;
        while k < rows.len()
            invariant
                self.wf(),
                target == crate::todo_repo::row_views(rows@),
                k <= rows@.len(),
                out@.len() == k,
                forall|j: int| 0 <= j < k ==> (#[trigger] out@[j])@ == view_of(self.rows(), target[j]),
            decreases rows@.len() - k,
        {
            let v = self.view(rows[k].duplicate())?;
            out.push(v);
            k += 1;
        }
        assert(out@.map_values(|t: TodoView| t@) =~= in_project(self.rows(), project).map_values(
            |row: RowV| view_of(self.rows(), row),
        ));
        Ok(out)
    }
    /// Writes `doc` to todo `id` and projects the result, translating the store outcome to the
    /// aggregate's errors.
    fn apply_doc(&mut self, project: ProjectId, id: TodoId, doc: &TodoDoc, expected: Option<u64>) -> (r:
        Result<TodoView, TodoError>)
        requires
            old(self).wf(),
        ensures
            final(self).wf(),
            final(self).durable() == old(self).durable(),
            final(self).infallible() == old(self).infallible(),
            final(self).ids_left() >= old(self).ids_left(),
            ({
                let rows = old(self).rows();
                let i = find(rows, project, id);
                let changed = with_doc(rows[i], doc@);
                let applies = i >= 0 && (expected matches Some(e) ==> e == rows[i].revision)
                    && rows[i].revision < u64::MAX;
                match r {
                    Ok(v) => applies && final(self).rows() == replaced(rows, i, changed) && v@
                        == view_of(final(self).rows(), changed),
                    Err(TodoError::NotFound) => i < 0 && final(self).rows() == rows,
                    Err(TodoError::Conflict { expected: e, actual: a }) => {
                        &&& i >= 0
                        &&& expected matches Some(x) && x != rows[i].revision
                        &&& e == expected
                        &&& a == Some(rows[i].revision)
                        &&& final(self).rows() == rows
                    },
                    Err(TodoError::Store(_)) => {
                        &&& final(self).rows() == rows || (applies && final(self).rows() == replaced(
                            rows,
                            i,
                            changed,
                        ))
                        &&& old(self).infallible() ==> {
                            &&& i >= 0
                            &&& (expected matches Some(e) ==> e == rows[i].revision)
                            &&& rows[i].revision == u64::MAX
                            &&& final(self).rows() == rows
                        }
                    },
                    Err(_) => false,
                }
            }),
    {
        match self.repo.write_doc(project, id, doc, expected) {
            Err(e) => Err(TodoError::Store(e)),
            Ok(TodoWriteResult::Written(stored)) => match self.view(*stored) {
                Ok(v) => Ok(v),
                Err(e) => Err(TodoError::Store(e)),
            },
            Ok(TodoWriteResult::NotFound) => Err(TodoError::NotFound),
            Ok(TodoWriteResult::Conflict { actual }) => Err(
                TodoError::Conflict { expected, actual: Some(actual) },
            ),
        }
    }

    /// Refuses completion while any of `blockers` is unmet in `project`, naming the unmet ones.
    fn guard_blockers(&self, project: ProjectId, blockers: &Vec<TodoId>) -> (r: Result<(), TodoError>)
        requires
            self.wf(),
        ensures
            match r {
                Ok(()) => unmet(self.rows(), project, blockers@).len() == 0,
                Err(TodoError::Blocked { by }) => by@ == unmet(self.rows(), project, blockers@)
                    && by@.len() > 0,
                Err(TodoError::Store(_)) => !self.infallible(),
                Err(_) => false,
            },
    {
        proof {
            self.lemma_store();
        }
        let unmet = match self.repo.unmet_blockers(project, blockers) {
            Err(e) => {
                return Err(TodoError::Store(e));
            },
            Ok(unmet) => unmet,
        };
        if unmet.len() > 0 {
            Err(TodoError::Blocked { by: unmet })
        } else {
            Ok(())
        }
    }

    /// Replaces the document of todo `id` in `project` with `doc`, **revision-guarded** by
    /// `expected`. Validates the document; refuses a write that would reopen a todo whose
    /// completion is recorded ([`TodoError::CompletionProtected`]); when the new status is
    /// [`Done`](TodoStatus::Done), enforces the blocker barrier ([`TodoError::Blocked`]); and refuses a
    /// stale write ([`TodoError::Conflict`]). A refused update changes nothing.
    pub fn update(&mut self, project: ProjectId, id: TodoId, doc: TodoDoc, expected: u64) -> (r:
        Result<TodoView, TodoError>)
        requires
            old(self).wf(),
        ensures
            final(self).wf(),
            final(self).durable() == old(self).durable(),
            final(self).infallible() == old(self).infallible(),
            final(self).ids_left() >= old(self).ids_left(),
            ({
                let rows = old(self).rows();
                let i = find(rows, project, id);
                let row = rows[i];
                let valid = doc_is_valid(doc@);
                let protected = row.completion is Some && doc@.status != TodoStatus::Done;
                let gated = doc@.status == TodoStatus::Done && unmet(rows, project, row.blockers).len()
                    > 0;
                let changed = with_doc(row, doc@);
                let applies = valid && i >= 0 && !protected && !gated && row.revision == expected
                    && row.revision < u64::MAX;
                match r {
                    Ok(v) => applies && final(self).rows() == replaced(rows, i, changed) && v@
                        == view_of(final(self).rows(), changed),
                    Err(TodoError::Invalid(m)) => !valid && m@ == validation_message(doc@) && final(self).rows() == rows,
                    Err(TodoError::NotFound) => valid && i < 0 && final(self).rows() == rows,
                    Err(TodoError::CompletionProtected) => valid && i >= 0 && protected && final(self).rows() == rows,
                    Err(TodoError::Blocked { by }) => {
                        &&& valid && i >= 0 && !protected && gated
                        &&& by@ == unmet(rows, project, row.blockers)
                        &&& final(self).rows() == rows
                    },
                    Err(TodoError::Conflict { expected: e, actual: a }) => {
                        &&& valid && i >= 0 && !protected && !gated
                        &&& row.revision != expected
                        &&& e == Some(expected)
                        &&& a == Some(row.revision)
                        &&& final(self).rows() == rows
                    },
                    Err(TodoError::Store(_)) => {
                        &&& final(self).rows() == rows || (applies && final(self).rows() == replaced(
                            rows,
                            i,
                            changed,
                        ))
                        &&& old(self).infallible() ==> {
                            &&& i >= 0
                            &&& row.revision == expected
                            &&& row.revision == u64::MAX
                            &&& final(self).rows() == rows
                        }
                    },
                    Err(_) => false,
                }
            }),
    {
        match doc.validate() {
            Ok(()) => {},
            Err(message) => {
                return Err(TodoError::Invalid(message));
            },
        }
        let stored = match self.repo.read(project, id) {
            Err(e) => {
                return Err(TodoError::Store(e));
            },
            Ok(None) => {
                return Err(TodoError::NotFound);
            },
            Ok(Some(stored)) => stored,
        };
        if stored.completion.is_some() && doc.status != TodoStatus::Done {
            return Err(TodoError::CompletionProtected);
        }
        if doc.status == TodoStatus::Done {
            if let Err(e) = self.guard_blockers(project, &stored.blockers) {
                return Err(e);
            }
        }
        self.apply_doc(project, id, &doc, Some(expected))
    }

    /// Marks todo `id` in `project` done — the convenience over [`update`](Self::update) that needs
    /// no revision. Enforces the same blocker barrier: refused with [`TodoError::Blocked`] while any
    /// blocker is unmet, so a todo stays gated until its blockers complete.
    pub fn complete(&mut self, project: ProjectId, id: TodoId) -> (r: Result<TodoView, TodoError>)
        requires
            old(self).wf(),
        ensures
            final(self).wf(),
            final(self).durable() == old(self).durable(),
            final(self).infallible() == old(self).infallible(),
            final(self).ids_left() >= old(self).ids_left(),
            ({
                let rows = old(self).rows();
                let i = find(rows, project, id);
                let row = rows[i];
                let open = unmet(rows, project, row.blockers);
                let changed = with_doc(row, DocV { status: TodoStatus::Done, ..row.doc });
                let applies = i >= 0 && open.len() == 0 && row.revision < u64::MAX;
                match r {
                    Ok(v) => applies && final(self).rows() == replaced(rows, i, changed) && v@
                        == view_of(final(self).rows(), changed),
                    Err(TodoError::NotFound) => i < 0 && final(self).rows() == rows,
                    Err(TodoError::Blocked { by }) => i >= 0 && by@ == open && open.len() > 0
                        && final(self).rows() == rows,
                    Err(TodoError::Store(_)) => {
                        &&& final(self).rows() == rows || (applies && final(self).rows() == replaced(
                            rows,
                            i,
                            changed,
                        ))
                        &&& old(self).infallible() ==> {
                            &&& i >= 0
                            &&& row.revision == u64::MAX
                            &&& final(self).rows() == rows
                        }
                    },
                    Err(_) => false,
                }
            }),
    {
        let stored = match self.repo.read(project, id) {
            Err(e) => {
                return Err(TodoError::Store(e));
            },
            Ok(None) => {
                return Err(TodoError::NotFound);
            },
            Ok(Some(stored)) => stored,
        };
        if let Err(e) = self.guard_blockers(project, &stored.blockers) {
            return Err(e);
        }
        let mut doc = stored.doc;
        doc.status = TodoStatus::Done;
        self.apply_doc(project, id, &doc, None)
    }

    /// Deletes todo `id` in `project`, returning whether one was removed.
    pub fn delete(&mut self, project: ProjectId, id: TodoId) -> (r: Result<bool, StoreError>)
        requires
            old(self).wf(),
        ensures
            final(self).wf(),
            final(self).durable() == old(self).durable(),
            final(self).infallible() == old(self).infallible(),
            final(self).ids_left() >= old(self).ids_left(),
            r is Err ==> !old(self).infallible(),
            ({
                let rows = old(self).rows();
                let i = find(rows, project, id);
                match r {
                    Ok(true) => i >= 0 && final(self).rows() == rows.remove(i),
                    Ok(false) => i < 0 && final(self).rows() == rows,
                    Err(_) => final(self).rows() == rows,
                }
            }),
    {
        self.repo.delete(project, id)
    }

    /// Moves todo `id` from `from` to `to`, clearing its blockers and lock (both reference the
    /// source project) and keeping its document, tags, comments, revision, and id. Returns the
    /// moved todo's view, or `None` if `from` has no such todo.
    pub fn transfer(&mut self, from: ProjectId, to: ProjectId, id: TodoId) -> (r: Result<
        Option<TodoView>,
        StoreError,
    >)
        requires
            old(self).wf(),
        ensures
            final(self).wf(),
            final(self).durable() == old(self).durable(),
            final(self).infallible() == old(self).infallible(),
            final(self).ids_left() >= old(self).ids_left(),
            r is Err ==> !old(self).infallible(),
            ({
                let rows = old(self).rows();
                let i = find(rows, from, id);
                row_change(rows, final(self).rows(), i, moved_to(rows[i], to), r)
            }),
    {
        let moved = self.repo.transfer(from, to, id)?;
        self.view_opt(moved)
    }

    /// The distinct tags used across `project`'s todos, sorted.
    pub fn tags(&self, project: ProjectId) -> (r: Result<Vec<String>, StoreError>)
        requires
            self.wf(),
        ensures
            self.infallible() ==> r is Ok,
            r matches Ok(v) ==> sorted_strictly(str_views(v@)) && str_views(v@).to_set()
                == tags_in(self.rows(), project),
    {
        self.repo.tags(project)
    }

    /// Adds `tag` to todo `id` in `project` (idempotent), returning the updated todo, or `None` if
    /// there is none.
    pub fn add_tag(&mut self, project: ProjectId, id: TodoId, tag: &str) -> (r: Result<
        Option<TodoView>,
        StoreError,
    >)
        requires
            old(self).wf(),
        ensures
            final(self).wf(),
            final(self).durable() == old(self).durable(),
            final(self).infallible() == old(self).infallible(),
            final(self).ids_left() >= old(self).ids_left(),
            r is Err ==> !old(self).infallible(),
            ({
                let rows = old(self).rows();
                let i = find(rows, project, id);
                row_change(
                    rows,
                    final(self).rows(),
                    i,
                    RowV { tags: add_once(rows[i].tags, tag@), ..rows[i] },
                    r,
                )
            }),
    {
        let stored = self.repo.add_tag(project, id, tag)?;
        self.view_opt(stored)
    }

    /// Removes `tag` from todo `id` in `project`, returning the updated todo, or `None` if there is
    /// none.
    pub fn remove_tag(&mut self, project: ProjectId, id: TodoId, tag: &str) -> (r: Result<
        Option<TodoView>,
        StoreError,
    >)
        requires
            old(self).wf(),
        ensures
            final(self).wf(),
            final(self).durable() == old(self).durable(),
            final(self).infallible() == old(self).infallible(),
            final(self).ids_left() >= old(self).ids_left(),
            r is Err ==> !old(self).infallible(),
            ({
                let rows = old(self).rows();
                let i = find(rows, project, id);
                row_change(
                    rows,
                    final(self).rows(),
                    i,
                    RowV { tags: remove_all(rows[i].tags, tag@), ..rows[i] },
                    r,
                )
            }),
    {
        let stored = self.repo.remove_tag(project, id, tag)?;
        self.view_opt(stored)
    }

    /// Locks todo `id` in `project` for `owner` — "signals, not ownership": if another process
    /// holds the lock it is left intact and the returned view reports that holder, so the caller
    /// compares `locked_by` to its own process to know whether it won. `None` if the todo does not
    /// exist.
    pub fn lock(&mut self, project: ProjectId, id: TodoId, owner: ProcessId) -> (r: Result<
        Option<TodoView>,
        StoreError,
    >)
        requires
            old(self).wf(),
        ensures
            final(self).wf(),
            final(self).durable() == old(self).durable(),
            final(self).infallible() == old(self).infallible(),
            final(self).ids_left() >= old(self).ids_left(),
            r is Err ==> !old(self).infallible(),
            ({
                let rows = old(self).rows();
                let i = find(rows, project, id);
                row_change(rows, final(self).rows(), i, locked_for(rows[i], owner), r)
            }),
    {
        let stored = self.repo.lock(project, id, owner)?;
        self.view_opt(stored)
    }

    /// Releases the lock on todo `id` in `project` if held by `owner`, returning the updated todo,
    /// or `None` if there is none. A lock another process holds is left intact.
    pub fn unlock(&mut self, project: ProjectId, id: TodoId, owner: ProcessId) -> (r: Result<
        Option<TodoView>,
        StoreError,
    >)
        requires
            old(self).wf(),
        ensures
            final(self).wf(),
            final(self).durable() == old(self).durable(),
            final(self).infallible() == old(self).infallible(),
            final(self).ids_left() >= old(self).ids_left(),
            r is Err ==> !old(self).infallible(),
            ({
                let rows = old(self).rows();
                let i = find(rows, project, id);
                row_change(rows, final(self).rows(), i, unlocked_for(rows[i], owner), r)
            }),
    {
        let stored = self.repo.unlock(project, id, owner)?;
        self.view_opt(stored)
    }

    /// Releases every todo lock held by `process` — the owner-close hook. Returns how many were
    /// released.
    pub fn release_owner(&mut self, process: ProcessId) -> (r: Result<usize, StoreError>)
        requires
            old(self).wf(),
        ensures
            final(self).wf(),
            final(self).durable() == old(self).durable(),
            final(self).infallible() == old(self).infallible(),
            final(self).ids_left() >= old(self).ids_left(),
            r is Err ==> !old(self).infallible(),
            match r {
                Ok(n) => n == held_by(old(self).rows(), process) && final(self).rows() == released(
                    old(self).rows(),
                    process,
                ),
                Err(_) => final(self).rows() == old(self).rows(),
            },
    {
        self.repo.release_owner(process)
    }

    /// Clears every todo lock — launch reconciliation. The todos persist; only their process-owned
    /// locks, whose owners are gone and whose per-run ids are recycled, are dropped.
    pub fn reconcile(&mut self) -> (r: Result<usize, StoreError>)
        requires
            old(self).wf(),
        ensures
            final(self).wf(),
            final(self).durable() == old(self).durable(),
            final(self).infallible() == old(self).infallible(),
            final(self).ids_left() >= old(self).ids_left(),
            r is Err ==> !old(self).infallible(),
            match r {
                Ok(n) => n == locked_count(old(self).rows()) && final(self).rows() == unlocked(
                    old(self).rows(),
                ),
                Err(_) => final(self).rows() == old(self).rows(),
            },
    {
        self.repo.clear_locks()
    }
}

} // verus!
