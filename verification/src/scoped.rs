//! The scope guard of session-scoped process actions: a process is acted on only when it exists
//! and belongs to the session's effective project.

use vstd::prelude::*;

use crate::ids::ProjectId;
use crate::todo_repo::StoreError;

verus! {

/// Why a session-scoped action on a process was refused.
#[derive(Debug)]
pub enum ScopedActionError {
    /// No process is registered under that id.
    UnknownProcess,
    /// The session has no project in scope to act within (none selected, bound, or singular).
    NoProjectScope,
    /// The process exists but belongs to a different project than the session's scope.
    OutOfScope,
    /// The command is not trusted to run in this project.
    Untrusted,
    /// A durable read failed while resolving scope.
    Store(StoreError),
}

/// The project a session's scoped actions act on: its explicit selection; else the project of the
/// process it is bound to (`bound`, when that process is still registered); else the sole loaded
/// project when exactly one is loaded (`loaded`, empty when the project list could not be read).
/// Otherwise there is none, and the caller must select one.
pub fn effective_project(
    selected: Option<ProjectId>,
    bound: Option<ProjectId>,
    loaded: &Vec<ProjectId>,
) -> (r: Option<ProjectId>)
    ensures
        r == if selected is Some {
            selected
        } else if bound is Some {
            bound
        } else if loaded@.len() == 1 {
            Some(loaded@[0])
        } else {
            None
        },
{
    if selected.is_some() {
        selected
    } else if bound.is_some() {
        bound
    } else if loaded.len() == 1 {
        Some(loaded[0])
    } else {
        None
    }
}

/// The scope guard: the process must exist (`process_project` is the project of the process the
/// registry holds under the id, if any), the session must have a project in `scope`, and the two
/// must be the same — checked in that order.
pub fn scope_guard(process_project: Option<ProjectId>, scope: Option<ProjectId>) -> (r: Result<
    (),
    ScopedActionError,
>)
    ensures
        match r {
            Ok(()) => process_project is Some && scope is Some && process_project == scope,
            Err(ScopedActionError::UnknownProcess) => process_project is None,
            Err(ScopedActionError::NoProjectScope) => process_project is Some && scope is None,
            Err(ScopedActionError::OutOfScope) => process_project is Some && scope is Some
                && process_project != scope,
            Err(_) => false,
        },
{
    let project = match process_project {
        Some(p) => p,
        None => {
            return Err(ScopedActionError::UnknownProcess);
        },
    };
    let scope = match scope {
        Some(s) => s,
        None => {
            return Err(ScopedActionError::NoProjectScope);
        },
    };
    if project != scope {
        return Err(ScopedActionError::OutOfScope);
    }
    Ok(())
}

} // verus!
