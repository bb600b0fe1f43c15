//! Releases a closing process's todo locks: the owner-close hook over the todo store.

use vstd::prelude::*;

use crate::ids::ProcessId;
use crate::todo_repo::{released, RowV, TodoRepo};

verus! {

/// Drops every todo lock held by a closing process.
pub struct TodoLockReleaser<R: TodoRepo> {
    repo: R,
}

impl<R: TodoRepo> TodoLockReleaser<R> {
    /// The store's rows.
    pub closed spec fn rows(&self) -> Seq<RowV> {
        self.repo.rows()
    }

    /// The releaser's internal consistency: its store's.
    pub closed spec fn wf(&self) -> bool {
        self.repo.wf()
    }

    /// Whether the store never reports a failure of its own (see [`TodoRepo::infallible`]).
    pub closed spec fn infallible(&self) -> bool {
        self.repo.infallible()
    }

    /// Over the todo store — the same one the aggregate writes through, so a release is seen by
    /// every reader.
    pub fn new(repo: R) -> (r: Self)
        requires
            repo.wf(),
        ensures
            r.wf(),
            r.rows() == repo.rows(),
            r.infallible() == repo.infallible(),
    {
        TodoLockReleaser { repo }
    }

    /// Releases every todo lock `process` holds. Best-effort: a closing process must never fail
    /// because a durable write did, so a failed release changes nothing and reports nothing — a
    /// lock left behind is dropped at the next launch's reconcile.
    pub fn release_all(&mut self, process: ProcessId)
        requires
            old(self).wf(),
        ensures
            final(self).wf(),
            final(self).infallible() == old(self).infallible(),
            final(self).rows() == released(old(self).rows(), process) || final(self).rows() == old(self).rows(),
            old(self).infallible() ==> final(self).rows() == released(old(self).rows(), process),
    {
        let _ = self.repo.release_owner(process);
    }
}

} // verus!
