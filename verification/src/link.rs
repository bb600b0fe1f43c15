//! Resolving a `solo://` link within the caller's effective project: a link to another project is
//! refused, never resolved, and an id with no live content is unknown.

use vstd::prelude::*;

use crate::coordination::CoordinationError;
use crate::ids::{ProjectId, ScratchpadId, TodoId};
use crate::project_work::{ScratchpadSummary, ScratchpadSummaryV};
use crate::todo::{view_of_opt, TodoView, Todos};
use crate::todo_repo::{lookup, TodoRepo};

verus! {

/// Refuses a link that names a project other than the caller's effective `scope` — the
/// never-leak scope discipline.
pub fn link_in_scope(link_project: ProjectId, scope: ProjectId) -> (r: Result<(), CoordinationError>)
    ensures
        r is Ok <==> link_project == scope,
        r matches Err(e) ==> e is ForeignScopeLink,
{
    if link_project == scope {
        Ok(())
    } else {
        Err(CoordinationError::ForeignScopeLink)
    }
}

/// The index of the first summary of `pads` with `id`, or `-1`.
pub open spec fn first_pad(pads: Seq<ScratchpadSummaryV>, id: ScratchpadId) -> int
    decreases pads.len(),
{
    if pads.len() == 0 {
        -1
    } else if pads[0].id == id {
        0
    } else {
        let rest = first_pad(pads.drop_first(), id);
        if rest < 0 {
            -1
        } else {
            rest + 1
        }
    }
}

/// The current name of the scratchpad `id` among a project's `pads` — scratchpads are addressed
/// by name, so a link's durable id is mapped to the name it has now — or `UnknownScratchpad` when
/// none has that id.
pub fn scratchpad_name(pads: &Vec<ScratchpadSummary>, id: ScratchpadId) -> (r: Result<
    String,
    CoordinationError,
>)
    ensures
        ({
            let v = pads@.map_values(|p: ScratchpadSummary| p@);
            let k = first_pad(v, id);
            match r {
                Ok(name) => 0 <= k < v.len() && name@ == v[k].name,
                Err(e) => k < 0 && e is UnknownScratchpad,
            }
        }),
{
    let ghost v = pads@.map_values(|p: ScratchpadSummary| p@);
    let mut i: usize = 0;
    assert(v.skip(0) =~= v);
    while i < pads.len()
        invariant
            v == pads@.map_values(|p: ScratchpadSummary| p@),
            i <= pads@.len(),
            first_pad(v, id) == if first_pad(v.skip(i as int), id) < 0 {
                -1
            } else {
                first_pad(v.skip(i as int), id) + i
            },
        decreases pads@.len() - i,
    {
        assert(v.skip(i as int).drop_first() =~= v.skip(i + 1));
        if pads[i].id == id {
            assert(v.skip(i as int)[0] == v[i as int]);
            return Ok(pads[i].name.clone());
        }
        i += 1;
    }
    assert(v.skip(i as int).len() == 0);
    Err(CoordinationError::UnknownScratchpad)
}

impl<R: TodoRepo> Todos<R> {
    /// Resolves a link to todo `id` of `link_project` within the caller's effective `scope`: a
    /// link to another project is refused, a todo that does not exist is unknown, and a store that
    /// cannot fail never fails here.
    pub fn resolve_todo_link(&self, scope: ProjectId, link_project: ProjectId, id: TodoId) -> (r:
        Result<TodoView, CoordinationError>)
        requires
            self.wf(),
        ensures
            match r {
                Ok(v) => link_project == scope && view_of_opt(
                    self.rows(),
                    lookup(self.rows(), scope, id),
                ) == Some(v@),
                Err(CoordinationError::ForeignScopeLink) => link_project != scope,
                Err(CoordinationError::UnknownTodo) => link_project == scope && lookup(
                    self.rows(),
                    scope,
                    id,
                ) is None,
                Err(CoordinationError::Store(_)) => link_project == scope && !self.infallible(),
                Err(_) => false,
            },
    {
        if link_project != scope {
            return Err(CoordinationError::ForeignScopeLink);
        }
        match self.get(scope, id) {
            Ok(Some(v)) => Ok(v),
            Ok(None) => Err(CoordinationError::UnknownTodo),
            Err(e) => Err(CoordinationError::Store(e)),
        }
    }
}

} // verus!
