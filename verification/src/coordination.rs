//! The shared taxonomy of refused coordination actions, and the one bounded-write rule every
//! coordination write surface applies before persisting.

use vstd::prelude::*;

use crate::ids::TodoId;
use crate::todo_repo::StoreError;

verus! {

/// Why a coordination action was refused. Mapped by the wire adapters to their own error type, so
/// the taxonomy is defined once here.
#[derive(Debug)]
pub enum CoordinationError {
    /// The session has no project in scope to act within (none selected, bound, or singular).
    NoProjectScope,
    /// The session is not bound to a process, so it has no owner to attribute the record to: an
    /// unbound external caller cannot own a process-owned coordination record — a lease or a
    /// timer (nothing would deliver a timer's body or auto-release a lease on close).
    NoBoundProcess,
    /// A scratchpad write was malformed — a blank name or an over-cap body; the message names
    /// every problem so the caller can fix it in one revision.
    InvalidScratchpad(String),
    /// A scratchpad write expected a different revision than the one on record. `expected` is
    /// `None` for a create; `actual` is `None` when no scratchpad exists under that name.
    RevisionConflict { expected: Option<u64>, actual: Option<u64> },
    /// A scratchpad action named one that does not exist in the session's effective project.
    UnknownScratchpad,
    /// A scratchpad rename targeted a name already used by another scratchpad in the project.
    ScratchpadNameTaken,
    /// A diagram write was malformed — a blank name or an over-cap source.
    InvalidDiagram(String),
    /// A diagram write expected a different revision than the one on record.
    DiagramRevisionConflict { expected: Option<u64>, actual: Option<u64> },
    /// A diagram action named one that does not exist in the session's effective project.
    UnknownDiagram,
    /// A diagram rename targeted a name already used by another diagram in the project.
    DiagramNameTaken,
    /// A todo write was malformed — a blank title or an over-cap body; the message names every
    /// problem.
    InvalidTodo(String),
    /// A todo update expected a different revision than the one on record.
    TodoRevisionConflict { expected: Option<u64>, actual: Option<u64> },
    /// A todo action named one that does not exist in the session's effective project.
    UnknownTodo,
    /// Completing a todo was refused because it still has unmet blockers; `by` lists them.
    TodoBlocked { by: Vec<TodoId> },
    /// A blocker referenced a todo that does not exist in the session's effective project.
    UnknownBlocker,
    /// A todo cannot block itself.
    SelfBlocker,
    /// A comment action named one that does not exist on the todo.
    UnknownComment,
    /// A template write carried malformed content.
    InvalidTemplate(String),
    /// A template update expected a different revision than the one on record.
    TemplateRevisionConflict { expected: Option<u64>, actual: Option<u64> },
    /// A template action named one that does not exist in the addressed scope.
    UnknownTemplate,
    /// A template create named one that already exists in the addressed scope and kind.
    TemplateNameTaken,
    /// A `solo://` link could not be parsed.
    MalformedLink,
    /// A `solo://` link named a project other than the caller's effective one, so it is refused
    /// rather than resolved to another project's content.
    ForeignScopeLink,
    /// A cross-project transfer named a target project the caller is not authenticated to.
    ForeignProject,
    /// A transfer named a target project that is not loaded.
    UnknownProject,
    /// A write carried a payload larger than its kind allows, so it was refused rather than
    /// letting one write grow the durable store without bound. `what` names the payload (a kv
    /// value, a timer body); `max_bytes` is the cap it exceeded.
    PayloadTooLarge { what: &'static str, max_bytes: usize },
    /// A durable read or write failed.
    Store(StoreError),
}

impl From<StoreError> for CoordinationError {
    fn from(error: StoreError) -> (r: Self) {
        CoordinationError::Store(error)
    }
}

impl vstd::std_specs::convert::FromSpecImpl<StoreError> for CoordinationError {
    open spec fn obeys_from_spec() -> bool {
        true
    }

    open spec fn from_spec(error: StoreError) -> Self {
        CoordinationError::Store(error)
    }
}

/// Refuses a coordination payload of `len` bytes larger than `max_bytes`, so a single write can
/// never grow the durable store without bound. `what` names the payload in the error. A payload
/// exactly at the cap is accepted.
pub fn check_payload_size(len: usize, max_bytes: usize, what: &'static str) -> (r: Result<
    (),
    CoordinationError,
>)
    ensures
        r is Ok <==> len <= max_bytes,
        r matches Err(e) ==> e matches CoordinationError::PayloadTooLarge { what: w, max_bytes: m }
            && w@ == what@ && m == max_bytes,
{
    if len > max_bytes {
        Err(CoordinationError::PayloadTooLarge { what, max_bytes })
    } else {
        Ok(())
    }
}

} // verus!
