//! The durable store of coordination todos and the port over it.
//!
//! The port is deliberately small and **atomic**: every operation that depends on a todo's current
//! state — the revision-guarded [`write_doc`](TodoRepo::write_doc), the read-modify-write of
//! tags/blockers/comments, the conditional lock acquire/release — is one method, never a read the
//! aggregate then acts on. What each method does to the store is stated over a model of the store:
//! its rows in creation order ([`TodoRepo::rows`]). A todo is durable and survives an app restart,
//! but its **lock** is process-owned and per-run, so [`clear_locks`](TodoRepo::clear_locks) drops
//! every lock on launch while keeping the todos.

use vstd::prelude::*;

pub mod memory;
pub mod noop;
pub use memory::MemTodoRepo;
pub use noop::NoopTodoRepo;

use crate::ids::{ProcessId, ProjectId, TodoId};
use crate::text::lex_lt;
use crate::todo_comment::{
    author_view, comment_views, duplicate_comments, AuthorV, Comment, CommentAuthor, CommentV,
};
use crate::todo::TodoError;
use crate::todo_completion::{
    completed_by, completion_view, duplicate_completion, CompletionV, TodoCompletion,
    TodoCompletionKey,
};
use crate::todo_doc::{DocV, TodoDoc, TodoStatus};

verus! {

/// A durable read or write failed.
#[derive(Clone, Debug, PartialEq, Eq)]
pub enum StoreError {
    /// The backing store reported a failure, described by the message.
    Backend(String),
}

/// A persisted todo: its store-assigned [`TodoId`] (durable, stable across runs), the project it
/// belongs to, the document (including its lifecycle status), its tags, the ids of the todos that
/// barrier it, its comments, its recorded completion (if any), the process currently holding its lock
/// (if any), and the `revision` the next doc write must match.
#[derive(Clone, Debug, PartialEq, Eq)]
pub struct StoredTodo {
    pub id: TodoId,
    pub project: ProjectId,
    pub doc: TodoDoc,
    pub tags: Vec<String>,
    pub blockers: Vec<TodoId>,
    pub comments: Vec<Comment>,
    pub completion: Option<TodoCompletion>,
    pub locked_by: Option<ProcessId>,
    pub revision: u64,
}

/// A stored todo as contracts see it.
pub ghost struct RowV {
    pub id: TodoId,
    pub project: ProjectId,
    pub doc: DocV,
    pub tags: Seq<Seq<char>>,
    pub blockers: Seq<TodoId>,
    pub comments: Seq<CommentV>,
    pub completion: Option<CompletionV>,
    pub locked_by: Option<ProcessId>,
    pub revision: u64,
}

/// The views of a list of strings.
pub open spec fn str_views(v: Seq<String>) -> Seq<Seq<char>> {
    v.map_values(|s: String| s@)
}

impl View for StoredTodo {
    type V = RowV;

    open spec fn view(&self) -> RowV {
        RowV {
            id: self.id,
            project: self.project,
            doc: self.doc@,
            tags: str_views(self.tags@),
            blockers: self.blockers@,
            comments: comment_views(self.comments@),
            completion: completion_view(self.completion),
            locked_by: self.locked_by,
            revision: self.revision,
        }
    }
}

/// A copy of a list of strings.
pub fn duplicate_strings(v: &Vec<String>) -> (r: Vec<String>)
    ensures
        str_views(r@) == str_views(v@),
{
    let mut r: Vec<String> = Vec::new();
    let mut i: usize = 0;
    while i < v.len()
        invariant
            i <= v@.len(),
            str_views(r@) == str_views(v@).take(i as int),
        decreases v@.len() - i,
    {
        r.push(v[i].clone());
        assert(str_views(v@).take(i + 1) == str_views(v@).take(i as int).push(v@[i as int]@));
        i += 1;
    }
    assert(str_views(v@).take(v@.len() as int) == str_views(v@));
    r
}

/// A copy of a list of ids.
pub fn duplicate_ids(v: &Vec<TodoId>) -> (r: Vec<TodoId>)
    ensures
        r@ == v@,
{
    let mut r: Vec<TodoId> = Vec::new();
    let mut i: usize = 0;
    while i < v.len()
        invariant
            i <= v@.len(),
            r@ == v@.take(i as int),
        decreases v@.len() - i,
    {
        r.push(v[i]);
        assert(v@.take(i + 1) == v@.take(i as int).push(v@[i as int]));
        i += 1;
    }
    assert(v@.take(v@.len() as int) == v@);
    r
}

impl StoredTodo {
    /// A copy with the same contents.
    pub fn duplicate(&self) -> (r: Self)
        ensures
            r@ == self@,
    {
        StoredTodo {
            id: self.id,
            project: self.project,
            doc: self.doc.duplicate(),
            tags: duplicate_strings(&self.tags),
            blockers: duplicate_ids(&self.blockers),
            comments: duplicate_comments(&self.comments),
            completion: duplicate_completion(&self.completion),
            locked_by: self.locked_by,
            revision: self.revision,
        }
    }
}

/// The outcome of a revision-guarded [`write_doc`](TodoRepo::write_doc): the write applied (the
/// stored row at its new revision), no todo exists under that id, or the expected revision no longer
/// matched.
#[derive(Clone, Debug, PartialEq, Eq)]
pub enum TodoWriteResult {
    Written(Box<StoredTodo>),
    NotFound,
    Conflict { actual: u64 },
}

/// The outcome of a comment edit ([`comment_update`](TodoRepo::comment_update) /
/// [`comment_delete`](TodoRepo::comment_delete)): the todo's updated row, no todo under that id, or
/// no comment under that id within the todo.
#[derive(Clone, Debug, PartialEq, Eq)]
pub enum CommentEdit {
    Edited(Box<StoredTodo>),
    NoTodo,
    NoComment,
}

/// The outcome of an atomic completion ([`apply_completion`](TodoRepo::apply_completion)): the
/// completion was recorded (the row as written), the same task had already recorded it (the row as
/// it stands), the report was refused, or no todo exists under that id.
#[derive(Debug)]
pub enum TodoCompletionAtomicResult {
    Recorded(Box<StoredTodo>),
    Existing(Box<StoredTodo>),
    Refused(TodoError),
    NotFound,
}

/// The outcome of a compare-write of a completion record
/// ([`compare_completion`](TodoRepo::compare_completion)): the replacement was written, the record
/// on file was not the expected one (the row as it stands), or no todo exists under that id.
#[derive(Clone, Debug, PartialEq, Eq)]
pub enum TodoCompletionCompareResult {
    Written(Box<StoredTodo>),
    Mismatch(Box<StoredTodo>),
    NotFound,
}

// ---------------------------------------------------------------------------------------------
// The model of the store.
// ---------------------------------------------------------------------------------------------

/// The rows are in creation order: ids strictly increase, so no id occurs twice.
pub open spec fn rows_wf(rows: Seq<RowV>) -> bool {
    forall|i: int, j: int| 0 <= i < j < rows.len() ==> rows[i].id.0 < rows[j].id.0
}

/// The position of the row with `id`, or `-1`.
pub open spec fn index_of(rows: Seq<RowV>, id: TodoId) -> int
    decreases rows.len(),
{
    if rows.len() == 0 {
        -1
    } else if rows.last().id == id {
        rows.len() - 1
    } else {
        index_of(rows.drop_last(), id)
    }
}

/// The position of the todo `id` of `project`, or `-1`.
pub open spec fn find(rows: Seq<RowV>, project: ProjectId, id: TodoId) -> int {
    let i = index_of(rows, id);
    if i >= 0 && rows[i].project == project {
        i
    } else {
        -1
    }
}

/// The todo `id` of `project`, if there is one.
pub open spec fn lookup(rows: Seq<RowV>, project: ProjectId, id: TodoId) -> Option<RowV> {
    let i = find(rows, project, id);
    if i >= 0 {
        Some(rows[i])
    } else {
        None
    }
}

/// The rows of `project`, in creation order.
pub open spec fn in_project(rows: Seq<RowV>, project: ProjectId) -> Seq<RowV>
    decreases rows.len(),
{
    if rows.len() == 0 {
        Seq::empty()
    } else {
        let rest = in_project(rows.drop_last(), project);
        if rows.last().project == project {
            rest.push(rows.last())
        } else {
            rest
        }
    }
}

/// Whether blocker `b` still bars a todo of `project`: it exists there and is not done. A blocker
/// that does not exist counts as met, so a deleted blocker never deadlocks a todo.
pub open spec fn open_blocker(rows: Seq<RowV>, project: ProjectId, b: TodoId) -> bool {
    lookup(rows, project, b) matches Some(r) && r.doc.status != TodoStatus::Done
}

/// The subset of `blockers` that still barrier a todo of `project`, in order.
pub open spec fn unmet(rows: Seq<RowV>, project: ProjectId, blockers: Seq<TodoId>) -> Seq<TodoId>
    decreases blockers.len(),
{
    if blockers.len() == 0 {
        Seq::empty()
    } else {
        let rest = unmet(rows, project, blockers.drop_last());
        if open_blocker(rows, project, blockers.last()) {
            rest.push(blockers.last())
        } else {
            rest
        }
    }
}

/// A freshly created row: the document at revision 1, no tags, blockers, comments, completion,
/// or lock.
pub open spec fn fresh_row(id: TodoId, project: ProjectId, doc: DocV) -> RowV {
    RowV {
        id,
        project,
        doc,
        tags: Seq::empty(),
        blockers: Seq::empty(),
        comments: Seq::empty(),
        completion: None,
        locked_by: None,
        revision: 1,
    }
}

/// `r` with its document replaced and its revision bumped.
pub open spec fn with_doc(r: RowV, doc: DocV) -> RowV {
    RowV { doc, revision: (r.revision + 1) as u64, ..r }
}

/// `s` with `x` appended unless it is already there.
pub open spec fn add_once<A>(s: Seq<A>, x: A) -> Seq<A> {
    if s.contains(x) {
        s
    } else {
        s.push(x)
    }
}

/// `s` without any occurrence of `x`, otherwise in order.
pub open spec fn remove_all<A>(s: Seq<A>, x: A) -> Seq<A>
    decreases s.len(),
{
    if s.len() == 0 {
        Seq::empty()
    } else {
        let rest = remove_all(s.drop_last(), x);
        if s.last() == x {
            rest
        } else {
            rest.push(s.last())
        }
    }
}

/// `r` locked for `owner` when its lock is free or already `owner`'s; otherwise unchanged.
pub open spec fn locked_for(r: RowV, owner: ProcessId) -> RowV {
    if r.locked_by is None || r.locked_by == Some(owner) {
        RowV { locked_by: Some(owner), ..r }
    } else {
        r
    }
}

/// `r` unlocked when `owner` holds its lock; otherwise unchanged.
pub open spec fn unlocked_for(r: RowV, owner: ProcessId) -> RowV {
    if r.locked_by == Some(owner) {
        RowV { locked_by: None, ..r }
    } else {
        r
    }
}

/// The largest comment id in `cs`, or 0.
pub open spec fn max_comment_id(cs: Seq<CommentV>) -> int
    decreases cs.len(),
{
    if cs.len() == 0 {
        0
    } else {
        let rest = max_comment_id(cs.drop_last());
        if cs.last().id > rest {
            cs.last().id as int
        } else {
            rest
        }
    }
}

/// The id a new comment on `cs` gets: one past the largest so far.
pub open spec fn next_comment_id(cs: Seq<CommentV>) -> int {
    max_comment_id(cs) + 1
}

/// The position of comment `id` in `cs`, or `-1`.
pub open spec fn comment_index(cs: Seq<CommentV>, id: u64) -> int
    decreases cs.len(),
{
    if cs.len() == 0 {
        -1
    } else if cs.last().id == id {
        cs.len() - 1
    } else {
        comment_index(cs.drop_last(), id)
    }
}

/// `r` with a new comment appended.
pub open spec fn with_comment(r: RowV, body: Seq<char>, author: Option<AuthorV>) -> RowV {
    RowV {
        comments: r.comments.push(
            CommentV { id: next_comment_id(r.comments) as u64, body, author },
        ),
        ..r
    }
}

/// The rows with every lock `process` holds released.
pub open spec fn released(rows: Seq<RowV>, process: ProcessId) -> Seq<RowV> {
    rows.map_values(|r: RowV| unlocked_for(r, process))
}

/// How many rows `process` holds locked.
pub open spec fn held_by(rows: Seq<RowV>, process: ProcessId) -> int
    decreases rows.len(),
{
    if rows.len() == 0 {
        0
    } else {
        held_by(rows.drop_last(), process) + if rows.last().locked_by == Some(process) {
            1int
        } else {
            0int
        }
    }
}

/// The rows with every lock cleared.
pub open spec fn unlocked(rows: Seq<RowV>) -> Seq<RowV> {
    rows.map_values(|r: RowV| RowV { locked_by: None, ..r })
}

/// How many rows are locked.
pub open spec fn locked_count(rows: Seq<RowV>) -> int
    decreases rows.len(),
{
    if rows.len() == 0 {
        0
    } else {
        locked_count(rows.drop_last()) + if rows.last().locked_by is Some {
            1int
        } else {
            0int
        }
    }
}

/// `r` moved to `to`: its blockers and lock, which both refer to its old project, are cleared.
pub open spec fn moved_to(r: RowV, to: ProjectId) -> RowV {
    RowV { project: to, blockers: Seq::empty(), locked_by: None, ..r }
}

/// `r` completed: the completing document, the result comment, and the record, at a new revision.
pub open spec fn completed(r: RowV, doc: DocV, result: CommentV, record: CompletionV) -> RowV {
    RowV {
        doc,
        comments: r.comments.push(result),
        completion: Some(record),
        revision: (r.revision + 1) as u64,
        ..r
    }
}

/// Every tag used by some todo of `project`.
pub open spec fn tags_in(rows: Seq<RowV>, project: ProjectId) -> Set<Seq<char>> {
    Set::new(
        |t: Seq<char>|
            exists|i: int|
                0 <= i < rows.len() && rows[i].project == project && #[trigger] rows[i].tags.contains(
                    t,
                ),
    )
}

/// `tags` lists each element once, in strictly increasing order.
pub open spec fn sorted_strictly(tags: Seq<Seq<char>>) -> bool {
    forall|i: int, j: int| 0 <= i < j < tags.len() ==> lex_lt(tags[i], tags[j])
}

/// The views of a list of rows.
pub open spec fn row_views(v: Seq<StoredTodo>) -> Seq<RowV> {
    v.map_values(|t: StoredTodo| t@)
}

/// The view of an optional row.
pub open spec fn row_view_opt(o: Option<StoredTodo>) -> Option<RowV> {
    match o {
        Some(t) => Some(t@),
        None => None,
    }
}

/// The store after `r` replaces the row at `i`.
pub open spec fn replaced(rows: Seq<RowV>, i: int, r: RowV) -> Seq<RowV> {
    rows.update(i, r)
}

/// Durable repository of coordination todos. One row per todo, identified durably by a
/// store-assigned [`TodoId`]. Every state-dependent method is one atomic step: it either fails
/// with a [`StoreError`] and changes nothing, or does exactly what its contract states.
///
/// A store that keeps nothing ([`TodoRepo::durable`] false, such as [`NoopTodoRepo`]) has no rows,
/// and its `create` echoes the row back without keeping it.
pub trait TodoRepo {
    /// The todos the store holds, in creation order.
    spec fn rows(&self) -> Seq<RowV>;

    /// Whether the store keeps what is written to it.
    spec fn durable(&self) -> bool;

    /// The store's internal consistency.
    spec fn wf(&self) -> bool;

    /// Whether the store never reports a failure of its own: it fails only where a method's
    /// contract names an exhausted counter.
    spec fn infallible(&self) -> bool;

    /// How many more fresh todo ids the store can assign.
    spec fn ids_left(&self) -> nat;

    /// A consistent store lists its rows in creation order, and one that keeps nothing has none.
    proof fn lemma_wf(&self)
        requires
            self.wf(),
        ensures
            rows_wf(self.rows()),
            !self.durable() ==> self.rows().len() == 0,
    ;

    /// Inserts a new todo in `project` with `doc` at revision 1, with an id past every id in the
    /// store, returning the stored row.
    fn create(&mut self, project: ProjectId, doc: &TodoDoc) -> (r: Result<StoredTodo, StoreError>)
        requires
            old(self).wf(),
        ensures
            final(self).wf(),
            final(self).durable() == old(self).durable(),
            final(self).infallible() == old(self).infallible(),
            final(self).ids_left() + 1 >= old(self).ids_left(),
            r is Err ==> !old(self).infallible() || old(self).ids_left() == 0,
            match r {
                Ok(t) => {
                    &&& t@ == fresh_row(t.id, project, doc@)
                    &&& forall|i: int|
                        0 <= i < old(self).rows().len() ==> old(self).rows()[i].id.0 < t.id.0
                    &&& final(self).rows() == if old(self).durable() {
                        old(self).rows().push(t@)
                    } else {
                        old(self).rows()
                    }
                },
                Err(_) => final(self).rows() == old(self).rows(),
            },
    ;

    /// The todo `id` of `project`, or `None` if there is none.
    fn read(&self, project: ProjectId, id: TodoId) -> (r: Result<Option<StoredTodo>, StoreError>)
        requires
            self.wf(),
        ensures
            self.infallible() ==> r is Ok,
            r matches Ok(o) ==> row_view_opt(o) == lookup(self.rows(), project, id),
    ;

    /// Every todo in `project`, in creation order.
    fn list(&self, project: ProjectId) -> (r: Result<Vec<StoredTodo>, StoreError>)
        requires
            self.wf(),
        ensures
            self.infallible() ==> r is Ok,
            r matches Ok(v) ==> row_views(v@) == in_project(self.rows(), project),
    ;

    /// Replaces the document of `(project, id)` with `doc`, bumping the revision. When `expected`
    /// is `Some`, the write applies only at that revision (else `Conflict` with the revision on
    /// record); when `None`, it applies unconditionally.
    fn write_doc(&mut self, project: ProjectId, id: TodoId, doc: &TodoDoc, expected: Option<u64>) -> (r:
        Result<TodoWriteResult, StoreError>)
        requires
            old(self).wf(),
        ensures
            final(self).wf(),
            final(self).durable() == old(self).durable(),
            final(self).infallible() == old(self).infallible(),
            final(self).ids_left() >= old(self).ids_left(),
            r is Err ==> !old(self).infallible() || ({
                let i = find(old(self).rows(), project, id);
                &&& i >= 0
                &&& (expected is None || expected == Some(old(self).rows()[i].revision))
                &&& old(self).rows()[i].revision == u64::MAX
            }),
            ({
                let rows = old(self).rows();
                let i = find(rows, project, id);
                match r {
                    Ok(TodoWriteResult::NotFound) => i < 0 && final(self).rows() == rows,
                    Ok(TodoWriteResult::Conflict { actual }) => {
                        &&& i >= 0
                        &&& expected matches Some(e) && e != rows[i].revision
                        &&& actual == rows[i].revision
                        &&& final(self).rows() == rows
                    },
                    Ok(TodoWriteResult::Written(t)) => {
                        &&& i >= 0
                        &&& expected matches Some(e) ==> e == rows[i].revision
                        &&& t@ == with_doc(rows[i], doc@)
                        &&& rows[i].revision < u64::MAX
                        &&& final(self).rows() == replaced(rows, i, t@)
                    },
                    Err(_) => final(self).rows() == rows,
                }
            }),
    ;

    /// Deletes `(project, id)`, returning whether one was removed.
    fn delete(&mut self, project: ProjectId, id: TodoId) -> (r: Result<bool, StoreError>)
        requires
            old(self).wf(),
        ensures
            final(self).wf(),
            final(self).durable() == old(self).durable(),
            final(self).infallible() == old(self).infallible(),
            final(self).ids_left() >= old(self).ids_left(),
            r is Err ==> !old(self).infallible(),
            ({
                let rows = old(self).rows();
                let i = find(rows, project, id);
                match r {
                    Ok(true) => i >= 0 && final(self).rows() == rows.remove(i),
                    Ok(false) => i < 0 && final(self).rows() == rows,
                    Err(_) => final(self).rows() == rows,
                }
            }),
    ;

    /// The distinct tags used across `project`'s todos, sorted.
    fn tags(&self, project: ProjectId) -> (r: Result<Vec<String>, StoreError>)
        requires
            self.wf(),
        ensures
            self.infallible() ==> r is Ok,
            r matches Ok(v) ==> sorted_strictly(str_views(v@)) && str_views(v@).to_set()
                == tags_in(self.rows(), project),
    ;

    /// Adds `tag` to `(project, id)` unless it is already there. The updated row, or `None` if
    /// absent.
    fn add_tag(&mut self, project: ProjectId, id: TodoId, tag: &str) -> (r: Result<
        Option<StoredTodo>,
        StoreError,
    >)
        requires
            old(self).wf(),
        ensures
            final(self).wf(),
            final(self).durable() == old(self).durable(),
            final(self).infallible() == old(self).infallible(),
            final(self).ids_left() >= old(self).ids_left(),
            r is Err ==> !old(self).infallible(),
            ({
                let rows = old(self).rows();
                let i = find(rows, project, id);
                match r {
                    Ok(Some(t)) => {
                        &&& i >= 0
                        &&& t@ == (RowV { tags: add_once(rows[i].tags, tag@), ..rows[i] })
                        &&& final(self).rows() == replaced(rows, i, t@)
                    },
                    Ok(None) => i < 0 && final(self).rows() == rows,
                    Err(_) => final(self).rows() == rows,
                }
            }),
    ;

    /// Removes `tag` from `(project, id)`. The updated row, or `None` if absent.
    fn remove_tag(&mut self, project: ProjectId, id: TodoId, tag: &str) -> (r: Result<
        Option<StoredTodo>,
        StoreError,
    >)
        requires
            old(self).wf(),
        ensures
            final(self).wf(),
            final(self).durable() == old(self).durable(),
            final(self).infallible() == old(self).infallible(),
            final(self).ids_left() >= old(self).ids_left(),
            r is Err ==> !old(self).infallible(),
            ({
                let rows = old(self).rows();
                let i = find(rows, project, id);
                match r {
                    Ok(Some(t)) => {
                        &&& i >= 0
                        &&& t@ == (RowV { tags: remove_all(rows[i].tags, tag@), ..rows[i] })
                        &&& final(self).rows() == replaced(rows, i, t@)
                    },
                    Ok(None) => i < 0 && final(self).rows() == rows,
                    Err(_) => final(self).rows() == rows,
                }
            }),
    ;

    /// Replaces the blockers of `(project, id)` with `blockers`. The updated row, or `None` if
    /// absent. (The aggregate checks the blockers exist and exclude `id` first.)
    fn set_blockers(&mut self, project: ProjectId, id: TodoId, blockers: &Vec<TodoId>) -> (r:
        Result<Option<StoredTodo>, StoreError>)
        requires
            old(self).wf(),
        ensures
            final(self).wf(),
            final(self).durable() == old(self).durable(),
            final(self).infallible() == old(self).infallible(),
            final(self).ids_left() >= old(self).ids_left(),
            r is Err ==> !old(self).infallible(),
            ({
                let rows = old(self).rows();
                let i = find(rows, project, id);
                match r {
                    Ok(Some(t)) => {
                        &&& i >= 0
                        &&& t@ == (RowV { blockers: blockers@, ..rows[i] })
                        &&& final(self).rows() == replaced(rows, i, t@)
                    },
                    Ok(None) => i < 0 && final(self).rows() == rows,
                    Err(_) => final(self).rows() == rows,
                }
            }),
    ;

    /// Adds `blocker` to `(project, id)` unless it is already there. The updated row, or `None` if
    /// absent.
    fn add_blocker(&mut self, project: ProjectId, id: TodoId, blocker: TodoId) -> (r: Result<
        Option<StoredTodo>,
        StoreError,
    >)
        requires
            old(self).wf(),
        ensures
            final(self).wf(),
            final(self).durable() == old(self).durable(),
            final(self).infallible() == old(self).infallible(),
            final(self).ids_left() >= old(self).ids_left(),
            r is Err ==> !old(self).infallible(),
            ({
                let rows = old(self).rows();
                let i = find(rows, project, id);
                match r {
                    Ok(Some(t)) => {
                        &&& i >= 0
                        &&& t@ == (RowV { blockers: add_once(rows[i].blockers, blocker), ..rows[i] })
                        &&& final(self).rows() == replaced(rows, i, t@)
                    },
                    Ok(None) => i < 0 && final(self).rows() == rows,
                    Err(_) => final(self).rows() == rows,
                }
            }),
    ;

    /// Removes `blocker` from `(project, id)`. The updated row, or `None` if absent.
    fn remove_blocker(&mut self, project: ProjectId, id: TodoId, blocker: TodoId) -> (r: Result<
        Option<StoredTodo>,
        StoreError,
    >)
        requires
            old(self).wf(),
        ensures
            final(self).wf(),
            final(self).durable() == old(self).durable(),
            final(self).infallible() == old(self).infallible(),
            final(self).ids_left() >= old(self).ids_left(),
            r is Err ==> !old(self).infallible(),
            ({
                let rows = old(self).rows();
                let i = find(rows, project, id);
                match r {
                    Ok(Some(t)) => {
                        &&& i >= 0
                        &&& t@ == (RowV {
                            blockers: remove_all(rows[i].blockers, blocker),
                            ..rows[i]
                        })
                        &&& final(self).rows() == replaced(rows, i, t@)
                    },
                    Ok(None) => i < 0 && final(self).rows() == rows,
                    Err(_) => final(self).rows() == rows,
                }
            }),
    ;

    /// The subset of `blockers` that exist in `project` and are not yet done — the unmet barrier of a
    /// todo. A blocker id that does not exist counts as met (a deleted blocker never deadlocks).
    fn unmet_blockers(&self, project: ProjectId, blockers: &Vec<TodoId>) -> (r: Result<
        Vec<TodoId>,
        StoreError,
    >)
        requires
            self.wf(),
        ensures
            self.infallible() ==> r is Ok,
            r matches Ok(v) ==> v@ == unmet(self.rows(), project, blockers@),
    ;

    /// Locks `(project, id)` for `owner` if it is free or already the owner's ("signals, not
    /// ownership": a lock held by another is left intact). Returns the row with whoever now holds
    /// it, or `None` if absent.
    fn lock(&mut self, project: ProjectId, id: TodoId, owner: ProcessId) -> (r: Result<
        Option<StoredTodo>,
        StoreError,
    >)
        requires
            old(self).wf(),
        ensures
            final(self).wf(),
            final(self).durable() == old(self).durable(),
            final(self).infallible() == old(self).infallible(),
            final(self).ids_left() >= old(self).ids_left(),
            r is Err ==> !old(self).infallible(),
            ({
                let rows = old(self).rows();
                let i = find(rows, project, id);
                match r {
                    Ok(Some(t)) => {
                        &&& i >= 0
                        &&& t@ == locked_for(rows[i], owner)
                        &&& final(self).rows() == replaced(rows, i, t@)
                    },
                    Ok(None) => i < 0 && final(self).rows() == rows,
                    Err(_) => final(self).rows() == rows,
                }
            }),
    ;

    /// Releases the lock on `(project, id)` if held by `owner`. Returns the row, or `None` if
    /// absent. A lock held by another process is left intact.
    fn unlock(&mut self, project: ProjectId, id: TodoId, owner: ProcessId) -> (r: Result<
        Option<StoredTodo>,
        StoreError,
    >)
        requires
            old(self).wf(),
        ensures
            final(self).wf(),
            final(self).durable() == old(self).durable(),
            final(self).infallible() == old(self).infallible(),
            final(self).ids_left() >= old(self).ids_left(),
            r is Err ==> !old(self).infallible(),
            ({
                let rows = old(self).rows();
                let i = find(rows, project, id);
                match r {
                    Ok(Some(t)) => {
                        &&& i >= 0
                        &&& t@ == unlocked_for(rows[i], owner)
                        &&& final(self).rows() == replaced(rows, i, t@)
                    },
                    Ok(None) => i < 0 && final(self).rows() == rows,
                    Err(_) => final(self).rows() == rows,
                }
            }),
    ;

    /// Appends a comment with `body` and `author` to `(project, id)`, assigning the next per-todo
    /// comment id (one past the largest so far). Returns the updated row and the new comment id, or
    /// `None` if the todo is absent.
    fn comment_create(
        &mut self,
        project: ProjectId,
        id: TodoId,
        body: &str,
        author: Option<CommentAuthor>,
    ) -> (r: Result<Option<(StoredTodo, u64)>, StoreError>)
        requires
            old(self).wf(),
        ensures
            final(self).wf(),
            final(self).durable() == old(self).durable(),
            final(self).infallible() == old(self).infallible(),
            final(self).ids_left() >= old(self).ids_left(),
            r is Err ==> !old(self).infallible() || ({
                let i = find(old(self).rows(), project, id);
                i >= 0 && max_comment_id(old(self).rows()[i].comments) == u64::MAX
            }),
            ({
                let rows = old(self).rows();
                let i = find(rows, project, id);
                match r {
                    Ok(Some((t, c))) => {
                        &&& i >= 0
                        &&& c == next_comment_id(rows[i].comments)
                        &&& t@ == with_comment(rows[i], body@, author_view(author))
                        &&& final(self).rows() == replaced(rows, i, t@)
                    },
                    Ok(None) => i < 0 && final(self).rows() == rows,
                    Err(_) => final(self).rows() == rows,
                }
            }),
    ;

    /// Updates comment `comment` of `(project, id)` to `body`.
    fn comment_update(&mut self, project: ProjectId, id: TodoId, comment: u64, body: &str) -> (r:
        Result<CommentEdit, StoreError>)
        requires
            old(self).wf(),
        ensures
            final(self).wf(),
            final(self).durable() == old(self).durable(),
            final(self).infallible() == old(self).infallible(),
            final(self).ids_left() >= old(self).ids_left(),
            r is Err ==> !old(self).infallible(),
            ({
                let rows = old(self).rows();
                let i = find(rows, project, id);
                match r {
                    Ok(CommentEdit::Edited(t)) => {
                        &&& i >= 0
                        &&& comment_index(rows[i].comments, comment) >= 0
                        &&& t@ == (RowV {
                            comments: rows[i].comments.update(
                                comment_index(rows[i].comments, comment),
                                CommentV {
                                    body: body@,
                                    ..rows[i].comments[comment_index(rows[i].comments, comment)]
                                },
                            ),
                            ..rows[i]
                        })
                        &&& final(self).rows() == replaced(rows, i, t@)
                    },
                    Ok(CommentEdit::NoTodo) => i < 0 && final(self).rows() == rows,
                    Ok(CommentEdit::NoComment) => {
                        &&& i >= 0
                        &&& comment_index(rows[i].comments, comment) < 0
                        &&& final(self).rows() == rows
                    },
                    Err(_) => final(self).rows() == rows,
                }
            }),
    ;

    /// Deletes comment `comment` of `(project, id)`.
    fn comment_delete(&mut self, project: ProjectId, id: TodoId, comment: u64) -> (r: Result<
        CommentEdit,
        StoreError,
    >)
        requires
            old(self).wf(),
        ensures
            final(self).wf(),
            final(self).durable() == old(self).durable(),
            final(self).infallible() == old(self).infallible(),
            final(self).ids_left() >= old(self).ids_left(),
            r is Err ==> !old(self).infallible(),
            ({
                let rows = old(self).rows();
                let i = find(rows, project, id);
                match r {
                    Ok(CommentEdit::Edited(t)) => {
                        &&& i >= 0
                        &&& comment_index(rows[i].comments, comment) >= 0
                        &&& t@ == (RowV {
                            comments: rows[i].comments.remove(
                                comment_index(rows[i].comments, comment),
                            ),
                            ..rows[i]
                        })
                        &&& final(self).rows() == replaced(rows, i, t@)
                    },
                    Ok(CommentEdit::NoTodo) => i < 0 && final(self).rows() == rows,
                    Ok(CommentEdit::NoComment) => {
                        &&& i >= 0
                        &&& comment_index(rows[i].comments, comment) < 0
                        &&& final(self).rows() == rows
                    },
                    Err(_) => final(self).rows() == rows,
                }
            }),
    ;

    /// Releases every todo lock held by `process` — the owner-close hook. Returns how many were
    /// released.
    fn release_owner(&mut self, process: ProcessId) -> (r: Result<usize, StoreError>)
        requires
            old(self).wf(),
        ensures
            final(self).wf(),
            final(self).durable() == old(self).durable(),
            final(self).infallible() == old(self).infallible(),
            final(self).ids_left() >= old(self).ids_left(),
            r is Err ==> !old(self).infallible(),
            match r {
                Ok(n) => n == held_by(old(self).rows(), process) && final(self).rows() == released(
                    old(self).rows(),
                    process,
                ),
                Err(_) => final(self).rows() == old(self).rows(),
            },
    ;

    /// Clears every todo lock — launch reconciliation. The todos themselves are kept. Returns how
    /// many locks were cleared.
    fn clear_locks(&mut self) -> (r: Result<usize, StoreError>)
        requires
            old(self).wf(),
        ensures
            final(self).wf(),
            final(self).durable() == old(self).durable(),
            final(self).infallible() == old(self).infallible(),
            final(self).ids_left() >= old(self).ids_left(),
            r is Err ==> !old(self).infallible(),
            match r {
                Ok(n) => n == locked_count(old(self).rows()) && final(self).rows() == unlocked(
                    old(self).rows(),
                ),
                Err(_) => final(self).rows() == old(self).rows(),
            },
    ;

    /// Moves `(from, id)` to project `to`, clearing its blockers and lock and keeping everything
    /// else. The moved row, or `None` if `from` has no such todo.
    fn transfer(&mut self, from: ProjectId, to: ProjectId, id: TodoId) -> (r: Result<
        Option<StoredTodo>,
        StoreError,
    >)
        requires
            old(self).wf(),
        ensures
            final(self).wf(),
            final(self).durable() == old(self).durable(),
            final(self).infallible() == old(self).infallible(),
            final(self).ids_left() >= old(self).ids_left(),
            r is Err ==> !old(self).infallible(),
            ({
                let rows = old(self).rows();
                let i = find(rows, from, id);
                match r {
                    Ok(Some(t)) => {
                        &&& i >= 0
                        &&& t@ == moved_to(rows[i], to)
                        &&& final(self).rows() == replaced(rows, i, t@)
                    },
                    Ok(None) => i < 0 && final(self).rows() == rows,
                    Err(_) => final(self).rows() == rows,
                }
            }),
    ;

    /// Reports the completion of `(project, id)` by `key` in one atomic step: the existing record
    /// when `key` already completed it; a refusal when another key did ([`TodoError::CompletionConflict`])
    /// or a blocker is still open ([`TodoError::Blocked`]); otherwise the todo becomes done, gains
    /// the result comment (`summary` by `author`, under the id one past the largest so far) and
    /// carries the fresh record, at a bumped revision. The decision and the write are one step, so
    /// two reporters can never both record a completion.
    fn apply_completion(
        &mut self,
        project: ProjectId,
        id: TodoId,
        key: TodoCompletionKey,
        summary: &str,
        author: &CommentAuthor,
    ) -> (r: Result<TodoCompletionAtomicResult, StoreError>)
        requires
            old(self).wf(),
        ensures
            final(self).wf(),
            final(self).durable() == old(self).durable(),
            final(self).infallible() == old(self).infallible(),
            final(self).ids_left() >= old(self).ids_left(),
            ({
                let rows = old(self).rows();
                let i = find(rows, project, id);
                let row = rows[i];
                let open = unmet(rows, project, row.blockers);
                match r {
                    Ok(TodoCompletionAtomicResult::Recorded(t)) => {
                        &&& i >= 0
                        &&& row.completion is None
                        &&& open.len() == 0
                        &&& t@ == completed_by(row, id, key, summary@, author@)
                        &&& final(self).rows() == replaced(rows, i, t@)
                    },
                    Ok(TodoCompletionAtomicResult::Existing(t)) => {
                        &&& i >= 0
                        &&& row.completion matches Some(c) && c.key == key
                        &&& t@ == row
                        &&& final(self).rows() == rows
                    },
                    Ok(TodoCompletionAtomicResult::Refused(TodoError::CompletionConflict)) => {
                        &&& i >= 0
                        &&& row.completion matches Some(c) && c.key != key
                        &&& final(self).rows() == rows
                    },
                    Ok(TodoCompletionAtomicResult::Refused(TodoError::Blocked { by })) => {
                        &&& i >= 0
                        &&& row.completion is None
                        &&& by@ == open
                        &&& open.len() > 0
                        &&& final(self).rows() == rows
                    },
                    Ok(TodoCompletionAtomicResult::Refused(_)) => false,
                    Ok(TodoCompletionAtomicResult::NotFound) => i < 0 && final(self).rows() == rows,
                    Err(_) => {
                        &&& final(self).rows() == rows
                        &&& old(self).infallible() ==> {
                            &&& i >= 0
                            &&& row.completion is None
                            &&& open.len() == 0
                            &&& (max_comment_id(row.comments) == u64::MAX || row.revision
                                == u64::MAX)
                        }
                    },
                }
            }),
    ;

    /// Replaces the completion record of `(project, id)` with `replacement`, but only if the record
    /// on file is `expected`.
    fn compare_completion(
        &mut self,
        project: ProjectId,
        id: TodoId,
        expected: &TodoCompletion,
        replacement: &TodoCompletion,
    ) -> (r: Result<TodoCompletionCompareResult, StoreError>)
        requires
            old(self).wf(),
        ensures
            final(self).wf(),
            final(self).durable() == old(self).durable(),
            final(self).infallible() == old(self).infallible(),
            final(self).ids_left() >= old(self).ids_left(),
            r is Err ==> !old(self).infallible(),
            ({
                let rows = old(self).rows();
                let i = find(rows, project, id);
                match r {
                    Ok(TodoCompletionCompareResult::Written(t)) => {
                        &&& i >= 0
                        &&& rows[i].completion == Some(expected@)
                        &&& t@ == (RowV { completion: Some(replacement@), ..rows[i] })
                        &&& final(self).rows() == replaced(rows, i, t@)
                    },
                    Ok(TodoCompletionCompareResult::Mismatch(t)) => {
                        &&& i >= 0
                        &&& rows[i].completion != Some(expected@)
                        &&& t@ == rows[i]
                        &&& final(self).rows() == rows
                    },
                    Ok(TodoCompletionCompareResult::NotFound) => i < 0 && final(self).rows()
                        == rows,
                    Err(_) => final(self).rows() == rows,
                }
            }),
    ;
}

} // verus!
