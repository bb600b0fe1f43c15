//! The agent tree of the orchestration read model: each managed process of a project, with its
//! recorded parent kept only while that lead is still in the registry — a lead that has left
//! re-roots its workers, so a closed lead never strands a node. Every field is derived on read
//! from what the caller read of the registry; nothing is cached or changed.
//!
//! The registry's own kind, status and activity types are the caller's (`K`, `S`, `A`), carried
//! through unchanged.

use vstd::prelude::*;

use crate::ids::{ProcessId, ProjectId};
use crate::lineage::{present_parent, spec_present_parent};

verus! {

/// A process as the registry shows it, with its recorded parent and its current idle activity.
#[derive(Clone, Debug, PartialEq, Eq)]
pub struct RegisteredProcess<K, S, A> {
    pub id: ProcessId,
    pub project: ProjectId,
    pub label: String,
    pub kind: K,
    pub status: S,
    pub parent: Option<ProcessId>,
    pub activity: A,
}

/// One node of a project's agent tree.
#[derive(Clone, Debug, PartialEq, Eq)]
pub struct AgentNode<K, S, A> {
    pub id: ProcessId,
    pub parent: Option<ProcessId>,
    pub label: String,
    pub kind: K,
    pub status: S,
    pub activity: A,
}

pub ghost struct RegisteredV<K, S, A> {
    pub id: ProcessId,
    pub project: ProjectId,
    pub label: Seq<char>,
    pub kind: K,
    pub status: S,
    pub parent: Option<ProcessId>,
    pub activity: A,
}

pub ghost struct NodeV<K, S, A> {
    pub id: ProcessId,
    pub parent: Option<ProcessId>,
    pub label: Seq<char>,
    pub kind: K,
    pub status: S,
    pub activity: A,
}

impl<K, S, A> View for RegisteredProcess<K, S, A> {
    type V = RegisteredV<K, S, A>;

    open spec fn view(&self) -> RegisteredV<K, S, A> {
        RegisteredV {
            id: self.id,
            project: self.project,
            label: self.label@,
            kind: self.kind,
            status: self.status,
            parent: self.parent,
            activity: self.activity,
        }
    }
}

impl<K, S, A> View for AgentNode<K, S, A> {
    type V = NodeV<K, S, A>;

    open spec fn view(&self) -> NodeV<K, S, A> {
        NodeV {
            id: self.id,
            parent: self.parent,
            label: self.label@,
            kind: self.kind,
            status: self.status,
            activity: self.activity,
        }
    }
}

/// The processes of `reg` in `project`, in registry order.
pub open spec fn in_project_registry<K, S, A>(reg: Seq<RegisteredV<K, S, A>>, project: ProjectId) -> Seq<
    RegisteredV<K, S, A>,
>
    decreases reg.len(),
{
    if reg.len() == 0 {
        Seq::empty()
    } else {
        let rest = in_project_registry(reg.drop_last(), project);
        if reg.last().project == project {
            rest.push(reg.last())
        } else {
            rest
        }
    }
}

/// The node a registered process becomes when the processes `present` are in the registry.
pub open spec fn node_of<K, S, A>(p: RegisteredV<K, S, A>, present: Seq<ProcessId>) -> NodeV<K, S, A> {
    NodeV {
        id: p.id,
        parent: spec_present_parent(p.parent, present),
        label: p.label,
        kind: p.kind,
        status: p.status,
        activity: p.activity,
    }
}

/// The agent tree of `project` from the registry `reg`: its processes in registry order, each
/// parent kept only while it is a process of the project.
pub open spec fn spec_agent_nodes<K, S, A>(reg: Seq<RegisteredV<K, S, A>>, project: ProjectId) -> Seq<
    NodeV<K, S, A>,
> {
    let mine = in_project_registry(reg, project);
    let present = mine.map_values(|p: RegisteredV<K, S, A>| p.id);
    mine.map_values(|p: RegisteredV<K, S, A>| node_of(p, present))
}

/// The agent tree of `project` from the registry `reg`: each of the project's processes, in
/// registry order, with its recorded parent kept only while that parent is itself one of them.
pub fn agent_nodes<K: Copy, S: Copy, A: Copy>(
    reg: &Vec<RegisteredProcess<K, S, A>>,
    project: ProjectId,
) -> (r: Vec<AgentNode<K, S, A>>)
    ensures
        r@.map_values(|n: AgentNode<K, S, A>| n@) == spec_agent_nodes(
            reg@.map_values(|p: RegisteredProcess<K, S, A>| p@),
            project,
        ),
{
    let ghost all = reg@.map_values(|p: RegisteredProcess<K, S, A>| p@);
    let mut mine: Vec<&RegisteredProcess<K, S, A>> = Vec::new();
    let mut present: Vec<ProcessId> = Vec::new();
    let mut k: usize = 0;
    while k < reg.len()
        invariant
            all == reg@.map_values(|p: RegisteredProcess<K, S, A>| p@),
            k <= reg@.len(),
            mine@.map_values(|p: &RegisteredProcess<K, S, A>| p@) == in_project_registry(
                all.take(k as int),
                project,
            ),
            present@ == in_project_registry(all.take(k as int), project).map_values(
                |p: RegisteredV<K, S, A>| p.id,
            ),
        decreases reg@.len() - k,
    {
        assert(all.take(k + 1).drop_last() =~= all.take(k as int));
        assert(all.take(k + 1).last() == reg@[k as int]@);
        let p = &reg[k];
        if p.project == project {
            let ghost before = mine@.map_values(|p: &RegisteredProcess<K, S, A>| p@);
            mine.push(p);
            present.push(p.id);
            assert(mine@.map_values(|p: &RegisteredProcess<K, S, A>| p@) =~= before.push(p@));
            assert(present@ =~= in_project_registry(all.take(k + 1), project).map_values(
                |p: RegisteredV<K, S, A>| p.id,
            ));
        }
        k += 1;
    }
    assert(all.take(reg@.len() as int) =~= all);
    let ghost mv = mine@.map_values(|p: &RegisteredProcess<K, S, A>| p@);
    let mut out: Vec<AgentNode<K, S, A>> = Vec::new();
    let mut j: usize = 0;
    while j < mine.len()
        invariant
            mv == mine@.map_values(|p: &RegisteredProcess<K, S, A>| p@),
            present@ == mv.map_values(|p: RegisteredV<K, S, A>| p.id),
            j <= mine@.len(),
            out@.len() == j,
            forall|q: int| 0 <= q < j ==> (#[trigger] out@[q])@ == node_of(mv[q], present@),
        decreases mine@.len() - j,
    {
        let p = mine[j];
        let parent = present_parent(p.parent, &present);
        out.push(
            AgentNode {
                id: p.id,
                parent,
                label: p.label.clone(),
                kind: p.kind,
                status: p.status,
                activity: p.activity,
            },
        );
        j += 1;
    }
    assert(out@.map_values(|n: AgentNode<K, S, A>| n@) =~= mv.map_values(
        |p: RegisteredV<K, S, A>| node_of(p, present@),
    ));
    out
}

/// A node's parent is always a node of the same tree: a lead that has left the registry, or lives
/// in another project, re-roots its workers rather than stranding them.
pub proof fn law_a_node_parent_is_a_node_of_the_tree<K, S, A>(
    reg: Seq<RegisteredV<K, S, A>>,
    project: ProjectId,
)
    ensures
        forall|i: int|
            0 <= i < spec_agent_nodes(reg, project).len() && (#[trigger] spec_agent_nodes(
                reg,
                project,
            )[i]).parent is Some ==> exists|j: int|
                0 <= j < spec_agent_nodes(reg, project).len() && spec_agent_nodes(reg, project)[j].id
                    == spec_agent_nodes(reg, project)[i].parent->0,
{
    let mine = in_project_registry(reg, project);
    let present = mine.map_values(|p: RegisteredV<K, S, A>| p.id);
    let nodes = spec_agent_nodes(reg, project);
    assert forall|i: int| 0 <= i < nodes.len() && (#[trigger] nodes[i]).parent is Some implies exists|
        j: int,
    | 0 <= j < nodes.len() && nodes[j].id == nodes[i].parent->0 by {
        let p = nodes[i].parent->0;
        assert(present.contains(p));
        let w = choose|w: int| 0 <= w < present.len() && present[w] == p;
        assert(nodes[w].id == p);
    }
}

} // verus!
