//! A todo store that keeps nothing.

use vstd::prelude::*;

use super::{
    in_project, lookup, tags_in, unmet, CommentEdit, RowV, StoreError, StoredTodo,
    TodoCompletionAtomicResult, TodoCompletionCompareResult, TodoRepo, TodoWriteResult,
};
use crate::ids::{ProcessId, ProjectId, TodoId};
use crate::todo_comment::{Comment, CommentAuthor};
use crate::todo_completion::{TodoCompletion, TodoCompletionKey};
use crate::todo_doc::TodoDoc;

verus! {

/// A [`TodoRepo`] that stores nothing — the default until a durable adapter is wired, so the core
/// runs (todos simply never persist) without it. A create echoes a placeholder row back and every
/// read is empty.
#[derive(Clone, Copy, Debug, Default)]
pub struct NoopTodoRepo;

impl TodoRepo for NoopTodoRepo {
    open spec fn rows(&self) -> Seq<RowV> {
        Seq::empty()
    }

    open spec fn durable(&self) -> bool {
        false
    }

    open spec fn wf(&self) -> bool {
        true
    }

    open spec fn infallible(&self) -> bool {
        true
    }

    open spec fn ids_left(&self) -> nat {
        u64::MAX as nat
    }

    proof fn lemma_wf(&self) {
    }

    fn create(&mut self, project: ProjectId, doc: &TodoDoc) -> (r: Result<StoredTodo, StoreError>)
        ensures
            r matches Ok(t) && t.id == TodoId(0),
    {
        let t = StoredTodo {
            id: TodoId(0),
            project,
            doc: doc.duplicate(),
            tags: Vec::new(),
            blockers: Vec::new(),
            comments: Vec::new(),
            completion: None,
            locked_by: None,
            revision: 1,
        };
        assert(super::str_views(t.tags@) =~= Seq::<Seq<char>>::empty());
        assert(crate::todo_comment::comment_views(t.comments@) =~= Seq::empty());
        Ok(t)
    }

    fn read(&self, project: ProjectId, id: TodoId) -> (r: Result<Option<StoredTodo>, StoreError>) {
        Ok(None)
    }

    fn list(&self, project: ProjectId) -> (r: Result<Vec<StoredTodo>, StoreError>) {
        let v: Vec<StoredTodo> = Vec::new();
        assert(in_project(Seq::<RowV>::empty(), project) == Seq::<RowV>::empty());
        Ok(v)
    }

    fn write_doc(&mut self, project: ProjectId, id: TodoId, doc: &TodoDoc, expected: Option<u64>) -> (r:
        Result<TodoWriteResult, StoreError>) {
        Ok(TodoWriteResult::NotFound)
    }

    fn delete(&mut self, project: ProjectId, id: TodoId) -> (r: Result<bool, StoreError>) {
        Ok(false)
    }

    fn tags(&self, project: ProjectId) -> (r: Result<Vec<String>, StoreError>) {
        let v: Vec<String> = Vec::new();
        proof {
            assert(tags_in(Seq::<RowV>::empty(), project) =~= Set::<Seq<char>>::empty());
            assert(super::str_views(v@).to_set() =~= Set::<Seq<char>>::empty());
        }
        Ok(v)
    }

    fn add_tag(&mut self, project: ProjectId, id: TodoId, tag: &str) -> (r: Result<
        Option<StoredTodo>,
        StoreError,
    >) {
        Ok(None)
    }

    fn remove_tag(&mut self, project: ProjectId, id: TodoId, tag: &str) -> (r: Result<
        Option<StoredTodo>,
        StoreError,
    >) {
        Ok(None)
    }

    fn set_blockers(&mut self, project: ProjectId, id: TodoId, blockers: &Vec<TodoId>) -> (r:
        Result<Option<StoredTodo>, StoreError>) {
        Ok(None)
    }

    fn add_blocker(&mut self, project: ProjectId, id: TodoId, blocker: TodoId) -> (r: Result<
        Option<StoredTodo>,
        StoreError,
    >) {
        Ok(None)
    }

    fn remove_blocker(&mut self, project: ProjectId, id: TodoId, blocker: TodoId) -> (r: Result<
        Option<StoredTodo>,
        StoreError,
    >) {
        Ok(None)
    }

    fn unmet_blockers(&self, project: ProjectId, blockers: &Vec<TodoId>) -> (r: Result<
        Vec<TodoId>,
        StoreError,
    >) {
        proof {
            lemma_nothing_unmet(project, blockers@);
        }
        Ok(Vec::new())
    }

    fn lock(&mut self, project: ProjectId, id: TodoId, owner: ProcessId) -> (r: Result<
        Option<StoredTodo>,
        StoreError,
    >) {
        Ok(None)
    }

    fn unlock(&mut self, project: ProjectId, id: TodoId, owner: ProcessId) -> (r: Result<
        Option<StoredTodo>,
        StoreError,
    >) {
        Ok(None)
    }

    fn comment_create(
        &mut self,
        project: ProjectId,
        id: TodoId,
        body: &str,
        author: Option<CommentAuthor>,
    ) -> (r: Result<Option<(StoredTodo, u64)>, StoreError>) {
        Ok(None)
    }

    fn comment_update(&mut self, project: ProjectId, id: TodoId, comment: u64, body: &str) -> (r:
        Result<CommentEdit, StoreError>) {
        Ok(CommentEdit::NoTodo)
    }

    fn comment_delete(&mut self, project: ProjectId, id: TodoId, comment: u64) -> (r: Result<
        CommentEdit,
        StoreError,
    >) {
        Ok(CommentEdit::NoTodo)
    }

    fn release_owner(&mut self, process: ProcessId) -> (r: Result<usize, StoreError>) {
        assert(super::released(Seq::<RowV>::empty(), process) =~= Seq::<RowV>::empty());
        Ok(0)
    }

    fn clear_locks(&mut self) -> (r: Result<usize, StoreError>) {
        assert(super::unlocked(Seq::<RowV>::empty()) =~= Seq::<RowV>::empty());
        Ok(0)
    }

    fn transfer(&mut self, from: ProjectId, to: ProjectId, id: TodoId) -> (r: Result<
        Option<StoredTodo>,
        StoreError,
    >) {
        Ok(None)
    }

    fn apply_completion(
        &mut self,
        project: ProjectId,
        id: TodoId,
        key: TodoCompletionKey,
        summary: &str,
        author: &CommentAuthor,
    ) -> (r: Result<TodoCompletionAtomicResult, StoreError>) {
        Ok(TodoCompletionAtomicResult::NotFound)
    }

    fn compare_completion(
        &mut self,
        project: ProjectId,
        id: TodoId,
        expected: &TodoCompletion,
        replacement: &TodoCompletion,
    ) -> (r: Result<TodoCompletionCompareResult, StoreError>) {
        Ok(TodoCompletionCompareResult::NotFound)
    }
}

proof fn lemma_nothing_unmet(project: ProjectId, blockers: Seq<TodoId>)
    ensures
        unmet(Seq::<RowV>::empty(), project, blockers) == Seq::<TodoId>::empty(),
    decreases blockers.len(),
{
    if blockers.len() > 0 {
        lemma_nothing_unmet(project, blockers.drop_last());
        assert(lookup(Seq::<RowV>::empty(), project, blockers.last()) is None);
    }
}

} // verus!
