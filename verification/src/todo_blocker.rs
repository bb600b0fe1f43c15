//! The blocker barrier: the aggregate operations that set, add, and remove the todos holding back another,
//! and the checks that keep the barrier sound.
//!
//! A blocker is a live column beside the todo's document, so changing one carries no revision
//! guard. What the barrier mechanically enforces is completion: a todo cannot be marked done while any
//! todo it names is still open.

use vstd::prelude::*;

use crate::ids::{ProjectId, TodoId};
use crate::todo::{
    bad_blocker, first_bad_blocker_at, no_bad_blocker, row_change, view_of, TodoError, TodoView,
    Todos,
};
use crate::todo_repo::{
    add_once, find, lookup, remove_all, replaced, RowV, StoreError, StoredTodo, TodoRepo,
};

verus! {

impl<R: TodoRepo> Todos<R> {
    /// Rejects a blocker that is the todo itself or that does not exist in the project.
    fn check_blocker(&self, project: ProjectId, id: TodoId, blocker: TodoId) -> (r: Result<
        (),
        TodoError,
    >)
        requires
            self.wf(),
        ensures
            match r {
                Ok(()) => !bad_blocker(self.rows(), project, id, blocker),
                Err(TodoError::SelfBlocker) => blocker == id,
                Err(TodoError::UnknownBlocker) => blocker != id && lookup(
                    self.rows(),
                    project,
                    blocker,
                ) is None,
                Err(TodoError::Store(_)) => !self.infallible(),
                Err(_) => false,
            },
    {
        proof {
            self.lemma_store();
        }
        if blocker == id {
            return Err(TodoError::SelfBlocker);
        }
        match self.repo.read(project, blocker) {
            Err(e) => Err(TodoError::Store(e)),
            Ok(None) => Err(TodoError::UnknownBlocker),
            Ok(Some(_)) => Ok(()),
        }
    }

    /// Projects a stored row that must exist (the aggregate already checked) to a view, mapping a
    /// concurrent disappearance to [`TodoError::NotFound`].
    fn require(&self, stored: Option<StoredTodo>) -> (r: Result<TodoView, TodoError>)
        requires
            self.wf(),
        ensures
            match r {
                Ok(v) => stored matches Some(t) && v@ == view_of(self.rows(), t@),
                Err(TodoError::NotFound) => stored is None,
                Err(TodoError::Store(_)) => stored is Some && !self.infallible(),
                Err(_) => false,
            },
    {
        match stored {
            Some(stored) => match self.view(stored) {
                Ok(v) => Ok(v),
                Err(e) => Err(TodoError::Store(e)),
            },
            None => Err(TodoError::NotFound),
        }
    }

    /// Replaces the blockers of todo `id` in `project` with `blockers`, after checking, in order,
    /// that none is `id` itself ([`TodoError::SelfBlocker`]) and each exists in the project
    /// ([`TodoError::UnknownBlocker`]). A refused change changes nothing.
    pub fn set_blockers(&mut self, project: ProjectId, id: TodoId, blockers: Vec<TodoId>) -> (r:
        Result<TodoView, TodoError>)
        requires
            old(self).wf(),
        ensures
            final(self).wf(),
            final(self).durable() == old(self).durable(),
            final(self).infallible() == old(self).infallible(),
            final(self).ids_left() >= old(self).ids_left(),
            ({
                let rows = old(self).rows();
                let i = find(rows, project, id);
                let changed = RowV { blockers: blockers@, ..rows[i] };
                let clean = no_bad_blocker(rows, project, id, blockers@);
                match r {
                    Ok(v) => clean && i >= 0 && final(self).rows() == replaced(rows, i, changed)
                        && v@ == view_of(final(self).rows(), changed),
                    Err(TodoError::SelfBlocker) => (exists|k: int|
                        first_bad_blocker_at(rows, project, id, blockers@, k) && blockers@[k]
                            == id) && final(self).rows() == rows,
                    Err(TodoError::UnknownBlocker) => (exists|k: int|
                        first_bad_blocker_at(rows, project, id, blockers@, k) && blockers@[k]
                            != id) && final(self).rows() == rows,
                    Err(TodoError::NotFound) => clean && i < 0 && final(self).rows() == rows,
                    Err(TodoError::Store(_)) => {
                        &&& final(self).rows() == rows || (clean && i >= 0 && final(self).rows()
                            == replaced(rows, i, changed))
                        &&& !old(self).infallible()
                    },
                    Err(_) => false,
                }
            }),
    {
        proof {
            self.lemma_store();
        }
        let ghost rows = self.rows();
        let mut k: usize = 0;
        while k < blockers.len()
            invariant
                self.wf(),
                rows == self.rows(),
                self.infallible() == old(self).infallible(),
                k <= blockers@.len(),
                forall|j: int| 0 <= j < k ==> !bad_blocker(rows, project, id, #[trigger] blockers@[j]),
            decreases blockers@.len() - k,
        {
            match self.check_blocker(project, id, blockers[k]) {
                Ok(()) => {},
                Err(e) => {
                    proof {
                        if !(e is Store) {
                            assert(first_bad_blocker_at(rows, project, id, blockers@, k as int));
                        }
                    }
                    return Err(e);
                },
            }
            k += 1;
        }
        let written = self.repo.set_blockers(project, id, &blockers);
        proof {
            self.lemma_store();
        }
        let stored = match written {
            Ok(stored) => stored,
            Err(e) => {
                return Err(TodoError::Store(e));
            },
        };
        self.require(stored)
    }

    /// Adds `blocker` to todo `id` in `project` (idempotent), after the same self/existence checks.
    pub fn add_blocker(&mut self, project: ProjectId, id: TodoId, blocker: TodoId) -> (r: Result<
        TodoView,
        TodoError,
    >)
        requires
            old(self).wf(),
        ensures
            final(self).wf(),
            final(self).durable() == old(self).durable(),
            final(self).infallible() == old(self).infallible(),
            final(self).ids_left() >= old(self).ids_left(),
            ({
                let rows = old(self).rows();
                let i = find(rows, project, id);
                let changed = RowV { blockers: add_once(rows[i].blockers, blocker), ..rows[i] };
                let clean = !bad_blocker(rows, project, id, blocker);
                match r {
                    Ok(v) => clean && i >= 0 && final(self).rows() == replaced(rows, i, changed)
                        && v@ == view_of(final(self).rows(), changed),
                    Err(TodoError::SelfBlocker) => blocker == id && final(self).rows() == rows,
                    Err(TodoError::UnknownBlocker) => blocker != id && lookup(rows, project, blocker)
                        is None && final(self).rows() == rows,
                    Err(TodoError::NotFound) => clean && i < 0 && final(self).rows() == rows,
                    Err(TodoError::Store(_)) => {
                        &&& final(self).rows() == rows || (clean && i >= 0 && final(self).rows()
                            == replaced(rows, i, changed))
                        &&& !old(self).infallible()
                    },
                    Err(_) => false,
                }
            }),
    {
        proof {
            self.lemma_store();
        }
        self.check_blocker(project, id, blocker)?;
        let written = self.repo.add_blocker(project, id, blocker);
        proof {
            self.lemma_store();
        }
        let stored = match written {
            Ok(stored) => stored,
            Err(e) => {
                return Err(TodoError::Store(e));
            },
        };
        self.require(stored)
    }

    /// Removes `blocker` from todo `id` in `project`, returning the updated todo, or `None` if
    /// there is none. Removing a blocker that is not present is a no-op.
    pub fn remove_blocker(&mut self, project: ProjectId, id: TodoId, blocker: TodoId) -> (r:
        Result<Option<TodoView>, StoreError>)
        requires
            old(self).wf(),
        ensures
            final(self).wf(),
            final(self).durable() == old(self).durable(),
            final(self).infallible() == old(self).infallible(),
            final(self).ids_left() >= old(self).ids_left(),
            r is Err ==> !old(self).infallible(),
            ({
                let rows = old(self).rows();
                let i = find(rows, project, id);
                row_change(
                    rows,
                    final(self).rows(),
                    i,
                    RowV { blockers: remove_all(rows[i].blockers, blocker), ..rows[i] },
                    r,
                )
            }),
    {
        proof {
            self.lemma_store();
        }
        let written = self.repo.remove_blocker(project, id, blocker);
        proof {
            self.lemma_store();
        }
        let stored = written?;
        self.view_opt(stored)
    }
}

} // verus!
