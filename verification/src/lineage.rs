//! Spawn lineage as the registry sees it: who spawned whom, re-rooted on read so a lead that has
//! left the registry never strands its workers, and the roster of live agents that share a
//! caller's lineage root, each named by how it relates to the caller.
//!
//! The recorded lineage (each process's parent and root) is read by the caller; what is decided
//! here is which of it still stands against the live registry.

use vstd::prelude::*;

use crate::ids::{ProcessId, ProjectId};

verus! {

/// A live spawn-lineage edge: `child` was spawned by `parent`, and both are in the registry.
#[derive(Clone, Copy, Debug, PartialEq, Eq, Structural)]
pub struct LineageEdge {
    pub child: ProcessId,
    pub parent: ProcessId,
}

/// How a roster member relates to the caller.
#[derive(Clone, Copy, Debug, PartialEq, Eq, Structural)]
pub enum AgentRelationship {
    /// The caller itself.
    Self_,
    /// An agent the caller spawned.
    Child,
    /// The agent that spawned the caller.
    Parent,
    /// Any other agent under the caller's lineage root.
    Sibling,
}

/// A process in the registry with its recorded lineage: whether it is an agent, its display
/// label, the parent that spawned it (if any), the root of its lineage, and its supervision
/// status (of the registry's own status type `S`).
#[derive(Clone, Debug, PartialEq, Eq)]
pub struct LiveAgent<S> {
    pub id: ProcessId,
    pub project: ProjectId,
    pub is_agent: bool,
    pub label: String,
    pub parent: Option<ProcessId>,
    pub root: ProcessId,
    pub status: S,
}

/// One member of a caller's roster: a live agent under the caller's lineage root, with its parent
/// (only while that parent is itself a live agent of the project), its root, how it relates to
/// the caller, its label and its supervision status.
#[derive(Clone, Debug, PartialEq, Eq)]
pub struct AgentRosterEntry<S> {
    pub process: ProcessId,
    pub parent: Option<ProcessId>,
    pub root: ProcessId,
    pub relationship: AgentRelationship,
    pub label: String,
    pub status: S,
}

pub ghost struct LiveAgentV<S> {
    pub id: ProcessId,
    pub project: ProjectId,
    pub is_agent: bool,
    pub label: Seq<char>,
    pub parent: Option<ProcessId>,
    pub root: ProcessId,
    pub status: S,
}

pub ghost struct RosterV<S> {
    pub process: ProcessId,
    pub parent: Option<ProcessId>,
    pub root: ProcessId,
    pub relationship: AgentRelationship,
    pub label: Seq<char>,
    pub status: S,
}

impl<S> View for LiveAgent<S> {
    type V = LiveAgentV<S>;

    open spec fn view(&self) -> LiveAgentV<S> {
        LiveAgentV {
            id: self.id,
            project: self.project,
            is_agent: self.is_agent,
            label: self.label@,
            parent: self.parent,
            root: self.root,
            status: self.status,
        }
    }
}

impl<S> View for AgentRosterEntry<S> {
    type V = RosterV<S>;

    open spec fn view(&self) -> RosterV<S> {
        RosterV {
            process: self.process,
            parent: self.parent,
            root: self.root,
            relationship: self.relationship,
            label: self.label@,
            status: self.status,
        }
    }
}

pub open spec fn agent_views<S>(v: Seq<LiveAgent<S>>) -> Seq<LiveAgentV<S>> {
    v.map_values(|a: LiveAgent<S>| a@)
}

pub open spec fn roster_views<S>(v: Seq<AgentRosterEntry<S>>) -> Seq<RosterV<S>> {
    v.map_values(|e: AgentRosterEntry<S>| e@)
}

/// A recorded parent, kept only while it is still `present`: a lead that has left re-roots its
/// workers.
pub open spec fn spec_present_parent(parent: Option<ProcessId>, present: Seq<ProcessId>) -> Option<
    ProcessId,
> {
    match parent {
        Some(p) => if present.contains(p) {
            Some(p)
        } else {
            None
        },
        None => None,
    }
}

/// The edges of `edges` (child, parent) whose two ends are both `present`, in order.
pub open spec fn live_edges(edges: Seq<(ProcessId, ProcessId)>, present: Seq<ProcessId>) -> Seq<
    LineageEdge,
>
    decreases edges.len(),
{
    if edges.len() == 0 {
        Seq::empty()
    } else {
        let rest = live_edges(edges.drop_last(), present);
        let (child, parent) = edges.last();
        if present.contains(child) && present.contains(parent) {
            rest.push(LineageEdge { child, parent })
        } else {
            rest
        }
    }
}

/// The agents of `live` in `project`, in order.
pub open spec fn project_agents<S>(live: Seq<LiveAgentV<S>>, project: ProjectId) -> Seq<LiveAgentV<S>>
    decreases live.len(),
{
    if live.len() == 0 {
        Seq::empty()
    } else {
        let rest = project_agents(live.drop_last(), project);
        if live.last().project == project && live.last().is_agent {
            rest.push(live.last())
        } else {
            rest
        }
    }
}

/// The ids of `agents`, in order.
pub open spec fn agent_ids<S>(agents: Seq<LiveAgentV<S>>) -> Seq<ProcessId> {
    agents.map_values(|a: LiveAgentV<S>| a.id)
}

/// How the agent `a`, whose live parent is `parent`, relates to `caller`, whose recorded parent is
/// `caller_parent`.
pub open spec fn relationship_of(
    a: ProcessId,
    parent: Option<ProcessId>,
    caller: ProcessId,
    caller_parent: Option<ProcessId>,
) -> AgentRelationship {
    if a == caller {
        AgentRelationship::Self_
    } else if parent == Some(caller) {
        AgentRelationship::Child
    } else if caller_parent == Some(a) {
        AgentRelationship::Parent
    } else {
        AgentRelationship::Sibling
    }
}

/// The roster entries of `agents` under the lineage root `root`, in order, each agent's parent
/// kept only while it is one of `ids`.
pub open spec fn roster_of<S>(
    agents: Seq<LiveAgentV<S>>,
    ids: Seq<ProcessId>,
    root: ProcessId,
    caller: ProcessId,
    caller_parent: Option<ProcessId>,
) -> Seq<RosterV<S>>
    decreases agents.len(),
{
    if agents.len() == 0 {
        Seq::empty()
    } else {
        let rest = roster_of(agents.drop_last(), ids, root, caller, caller_parent);
        let a = agents.last();
        if a.root == root {
            let parent = spec_present_parent(a.parent, ids);
            rest.push(
                RosterV {
                    process: a.id,
                    parent,
                    root,
                    relationship: relationship_of(a.id, parent, caller, caller_parent),
                    label: a.label,
                    status: a.status,
                },
            )
        } else {
            rest
        }
    }
}

/// The roster of `caller` in `project`: every live agent of the project under the caller's lineage
/// root `root`, from the registry `live`.
pub open spec fn spec_roster<S>(
    project: ProjectId,
    caller: ProcessId,
    caller_parent: Option<ProcessId>,
    root: ProcessId,
    live: Seq<LiveAgentV<S>>,
) -> Seq<RosterV<S>> {
    let agents = project_agents(live, project);
    roster_of(agents, agent_ids(agents), root, caller, caller_parent)
}

/// The recorded `parent`, kept only while it is still `present`.
pub fn present_parent(parent: Option<ProcessId>, present: &Vec<ProcessId>) -> (r: Option<ProcessId>)
    ensures
        r == spec_present_parent(parent, present@),
{
    match parent {
        Some(p) => {
            let mut k: usize = 0;
            while k < present.len()
                invariant
                    parent == Some(p),
                    k <= present@.len(),
                    forall|j: int| 0 <= j < k ==> present@[j] != p,
                decreases present@.len() - k,
            {
                if present[k] == p {
                    assert(present@[k as int] == p);
                    assert(present@.contains(p));
                    return Some(p);
                }
                k += 1;
            }
            None
        },
        None => None,
    }
}

/// Every recorded spawn edge (child, parent) whose two ends are both still `present`, in order —
/// an edge appears only while both its worker and its lead are in the registry.
pub fn lineage_edges(present: &Vec<ProcessId>, edges: &Vec<(ProcessId, ProcessId)>) -> (r: Vec<
    LineageEdge,
>)
    ensures
        r@ == live_edges(edges@, present@),
{
    let mut out: Vec<LineageEdge> = Vec::new();
    let mut k: usize = 0;
    while k < edges.len()
        invariant
            k <= edges@.len(),
            out@ == live_edges(edges@.take(k as int), present@),
        decreases edges@.len() - k,
    {
        assert(edges@.take(k + 1).drop_last() =~= edges@.take(k as int));
        assert(edges@.take(k + 1).last() == edges@[k as int]);
        let (child, parent) = edges[k];
        let keeps_child = present_parent(Some(child), present).is_some();
        let keeps_parent = present_parent(Some(parent), present).is_some();
        if keeps_child && keeps_parent {
            out.push(LineageEdge { child, parent });
        }
        k += 1;
    }
    assert(edges@.take(edges@.len() as int) =~= edges@);
    out
}

/// The roster of `caller` in `project`: each live agent of the project (from the registry `live`)
/// whose lineage root is the caller's `root`, in registry order, with its parent kept only while
/// that parent is itself a live agent of the project, and how it relates to the caller — the
/// caller itself, a child it spawned, the parent that spawned it (`caller_parent`, as recorded),
/// or a sibling.
pub fn agent_roster<S: Copy>(
    project: ProjectId,
    caller: ProcessId,
    caller_parent: Option<ProcessId>,
    root: ProcessId,
    live: &Vec<LiveAgent<S>>,
) -> (r: Vec<AgentRosterEntry<S>>)
    ensures
        roster_views(r@) == spec_roster(project, caller, caller_parent, root, agent_views(live@)),
{
    let ghost all = agent_views(live@);
    let mut agents: Vec<&LiveAgent<S>> = Vec::new();
    let mut ids: Vec<ProcessId> = Vec::new();
    let mut k: usize = 0;
    while k < live.len()
        invariant
            all == agent_views(live@),
            k <= live@.len(),
            agents@.len() == ids@.len(),
            agents@.map_values(|a: &LiveAgent<S>| a@) == project_agents(all.take(k as int), project),
            ids@ == agent_ids(project_agents(all.take(k as int), project)),
        decreases live@.len() - k,
    {
        assert(all.take(k + 1).drop_last() =~= all.take(k as int));
        assert(all.take(k + 1).last() == live@[k as int]@);
        let a = &live[k];
        if a.project == project && a.is_agent {
            let ghost before = agents@.map_values(|a: &LiveAgent<S>| a@);
            agents.push(a);
            ids.push(a.id);
            assert(agents@.map_values(|a: &LiveAgent<S>| a@) =~= before.push(a@));
            assert(ids@ =~= agent_ids(project_agents(all.take(k + 1), project)));
        }
        k += 1;
    }
    assert(all.take(live@.len() as int) =~= all);
    let ghost av = agents@.map_values(|a: &LiveAgent<S>| a@);
    let mut out: Vec<AgentRosterEntry<S>> = Vec::new();
    let mut j: usize = 0;
    while j < agents.len()
        invariant
            av == agents@.map_values(|a: &LiveAgent<S>| a@),
            j <= agents@.len(),
            roster_views(out@) == roster_of(av.take(j as int), ids@, root, caller, caller_parent),
        decreases agents@.len() - j,
    {
        assert(av.take(j + 1).drop_last() =~= av.take(j as int));
        assert(av.take(j + 1).last() == agents@[j as int]@);
        let a = agents[j];
        if a.root == root {
            let parent = present_parent(a.parent, &ids);
            let relationship = if a.id == caller {
                AgentRelationship::Self_
            } else if parent == Some(caller) {
                AgentRelationship::Child
            } else if caller_parent == Some(a.id) {
                AgentRelationship::Parent
            } else {
                AgentRelationship::Sibling
            };
            let ghost before = roster_views(out@);
            out.push(
                AgentRosterEntry {
                    process: a.id,
                    parent,
                    root,
                    relationship,
                    label: a.label.clone(),
                    status: a.status,
                },
            );
            assert(roster_views(out@) =~= before.push(out@[out@.len() - 1]@));
        }
        j += 1;
    }
    assert(av.take(agents@.len() as int) =~= av);
    out
}

/// Every roster member of `roster` but `caller`, in order.
pub open spec fn others<S>(roster: Seq<RosterV<S>>, caller: ProcessId) -> Seq<ProcessId>
    decreases roster.len(),
{
    if roster.len() == 0 {
        Seq::empty()
    } else {
        let rest = others(roster.drop_last(), caller);
        if roster.last().process != caller {
            rest.push(roster.last().process)
        } else {
            rest
        }
    }
}

/// The processes a broadcast from `caller` addresses: every roster member but the caller, in
/// roster order.
pub fn broadcast_recipients<S>(roster: &Vec<AgentRosterEntry<S>>, caller: ProcessId) -> (r: Vec<ProcessId>)
    ensures
        r@ == others(roster_views(roster@), caller),
{
    let ghost rv = roster_views(roster@);
    let mut out: Vec<ProcessId> = Vec::new();
    let mut k: usize = 0;
    while k < roster.len()
        invariant
            rv == roster_views(roster@),
            k <= roster@.len(),
            out@ == others(rv.take(k as int), caller),
        decreases roster@.len() - k,
    {
        assert(rv.take(k + 1).drop_last() =~= rv.take(k as int));
        assert(rv.take(k + 1).last() == roster@[k as int]@);
        let p = roster[k].process;
        if p != caller {
            out.push(p);
        }
        k += 1;
    }
    assert(rv.take(roster@.len() as int) =~= rv);
    out
}

} // verus!
