//! What lineage reads promise: an edge or a parent stands only while both ends are live, a roster
//! holds only live agents of the project under the caller's root, and a broadcast never addresses
//! its sender.

use vstd::prelude::*;

use crate::ids::{ProcessId, ProjectId};
use crate::lineage::{
    agent_ids, live_edges, others, project_agents, roster_of, spec_roster, AgentRelationship,
    LiveAgentV, RosterV,
};

verus! {

/// Every listed edge joins two present processes, and every recorded edge whose two ends are
/// present is listed.
pub proof fn law_an_edge_stands_while_both_ends_are_present(
    edges: Seq<(ProcessId, ProcessId)>,
    present: Seq<ProcessId>,
)
    ensures
        forall|i: int|
            0 <= i < live_edges(edges, present).len() ==> present.contains(
                (#[trigger] live_edges(edges, present)[i]).child,
            ) && present.contains(live_edges(edges, present)[i].parent),
        forall|i: int|
            0 <= i < edges.len() && present.contains((#[trigger] edges[i]).0) && present.contains(
                edges[i].1,
            ) ==> live_edges(edges, present).contains(
                crate::lineage::LineageEdge { child: edges[i].0, parent: edges[i].1 },
            ),
    decreases edges.len(),
{
    if edges.len() > 0 {
        let d = edges.drop_last();
        law_an_edge_stands_while_both_ends_are_present(d, present);
        let rest = live_edges(d, present);
        let out = live_edges(edges, present);
        assert forall|i: int| 0 <= i < out.len() implies present.contains(
            (#[trigger] out[i]).child,
        ) && present.contains(out[i].parent) by {
            if i < rest.len() {
                assert(out[i] == rest[i]);
            }
        }
        assert forall|i: int|
            0 <= i < edges.len() && present.contains((#[trigger] edges[i]).0) && present.contains(
                edges[i].1,
            ) implies out.contains(
            crate::lineage::LineageEdge { child: edges[i].0, parent: edges[i].1 },
        ) by {
            let e = crate::lineage::LineageEdge { child: edges[i].0, parent: edges[i].1 };
            if i < d.len() {
                assert(d[i] == edges[i]);
                assert(rest.contains(e));
                let k = choose|k: int| 0 <= k < rest.len() && rest[k] == e;
                assert(out[k] == e);
            } else {
                assert(out[out.len() - 1] == e);
            }
        }
    }
}

proof fn lemma_project_agents<S>(live: Seq<LiveAgentV<S>>, project: ProjectId)
    ensures
        forall|i: int|
            0 <= i < project_agents(live, project).len() ==> live.contains(
                #[trigger] project_agents(live, project)[i],
            ) && project_agents(live, project)[i].project == project && project_agents(
                live,
                project,
            )[i].is_agent,
    decreases live.len(),
{
    if live.len() > 0 {
        let d = live.drop_last();
        lemma_project_agents(d, project);
        let rest = project_agents(d, project);
        let out = project_agents(live, project);
        assert forall|i: int| 0 <= i < out.len() implies live.contains(#[trigger] out[i])
            && out[i].project == project && out[i].is_agent by {
            if i < rest.len() {
                assert(out[i] == rest[i]);
                let w = choose|w: int| 0 <= w < d.len() && d[w] == rest[i];
                assert(live[w] == rest[i]);
            } else {
                assert(live[live.len() - 1] == out[i]);
            }
        }
    }
}

proof fn lemma_roster_of<S>(
    agents: Seq<LiveAgentV<S>>,
    ids: Seq<ProcessId>,
    root: ProcessId,
    caller: ProcessId,
    caller_parent: Option<ProcessId>,
)
    ensures
        forall|i: int|
            0 <= i < roster_of(agents, ids, root, caller, caller_parent).len() ==> {
                let e = #[trigger] roster_of(agents, ids, root, caller, caller_parent)[i];
                &&& e.root == root
                &&& exists|k: int| 0 <= k < agents.len() && agents[k].id == e.process
                &&& (e.parent matches Some(p) ==> ids.contains(p))
                &&& (e.relationship == AgentRelationship::Self_) == (e.process == caller)
            },
    decreases agents.len(),
{
    if agents.len() > 0 {
        let d = agents.drop_last();
        lemma_roster_of(d, ids, root, caller, caller_parent);
        let rest = roster_of(d, ids, root, caller, caller_parent);
        let out = roster_of(agents, ids, root, caller, caller_parent);
        assert forall|i: int| 0 <= i < out.len() implies {
            let e = #[trigger] out[i];
            &&& e.root == root
            &&& exists|k: int| 0 <= k < agents.len() && agents[k].id == e.process
            &&& (e.parent matches Some(p) ==> ids.contains(p))
            &&& (e.relationship == AgentRelationship::Self_) == (e.process == caller)
        } by {
            if i < rest.len() {
                assert(out[i] == rest[i]);
                let k = choose|k: int| 0 <= k < d.len() && d[k].id == rest[i].process;
                assert(agents[k] == d[k]);
            } else {
                assert(agents[agents.len() - 1].id == out[i].process);
            }
        }
    }
}

/// Every roster member is a live agent of the project under the caller's lineage root; its parent,
/// when named, is itself a live agent of the project; and exactly the caller is named as itself.
pub proof fn law_a_roster_holds_only_live_agents_of_the_root<S>(
    project: ProjectId,
    caller: ProcessId,
    caller_parent: Option<ProcessId>,
    root: ProcessId,
    live: Seq<LiveAgentV<S>>,
)
    ensures
        forall|i: int|
            0 <= i < spec_roster(project, caller, caller_parent, root, live).len() ==> {
                let e = #[trigger] spec_roster(project, caller, caller_parent, root, live)[i];
                &&& e.root == root
                &&& exists|k: int|
                    0 <= k < live.len() && live[k].id == e.process && live[k].project == project
                        && live[k].is_agent
                &&& (e.parent matches Some(p) ==> exists|k: int|
                    0 <= k < live.len() && live[k].id == p && live[k].project == project
                        && live[k].is_agent)
                &&& (e.relationship == AgentRelationship::Self_) == (e.process == caller)
            },
{
    let agents = project_agents(live, project);
    let ids = agent_ids(agents);
    lemma_project_agents(live, project);
    lemma_roster_of(agents, ids, root, caller, caller_parent);
    let out = spec_roster(project, caller, caller_parent, root, live);
    assert forall|i: int| 0 <= i < out.len() implies {
        let e = #[trigger] out[i];
        &&& e.root == root
        &&& exists|k: int|
            0 <= k < live.len() && live[k].id == e.process && live[k].project == project
                && live[k].is_agent
        &&& (e.parent matches Some(p) ==> exists|k: int|
            0 <= k < live.len() && live[k].id == p && live[k].project == project
                && live[k].is_agent)
        &&& (e.relationship == AgentRelationship::Self_) == (e.process == caller)
    } by {
        let e = out[i];
        let k = choose|k: int| 0 <= k < agents.len() && agents[k].id == e.process;
        assert(live.contains(agents[k]));
        let w = choose|w: int| 0 <= w < live.len() && live[w] == agents[k];
        assert(live[w].id == e.process);
        if let Some(p) = e.parent {
            assert(ids.contains(p));
            let m = choose|m: int| 0 <= m < ids.len() && ids[m] == p;
            assert(agents[m].id == p);
            assert(live.contains(agents[m]));
            let v = choose|v: int| 0 <= v < live.len() && live[v] == agents[m];
            assert(live[v].id == p);
        }
    }
}

/// A broadcast never addresses its sender.
pub proof fn law_a_broadcast_skips_its_sender<S>(roster: Seq<RosterV<S>>, caller: ProcessId)
    ensures
        !others(roster, caller).contains(caller),
    decreases roster.len(),
{
    if roster.len() > 0 {
        law_a_broadcast_skips_its_sender(roster.drop_last(), caller);
        let rest = others(roster.drop_last(), caller);
        if others(roster, caller).contains(caller) {
            let k = choose|k: int|
                0 <= k < others(roster, caller).len() && others(roster, caller)[k] == caller;
            if k < rest.len() {
                assert(rest[k] == caller);
            }
        }
    }
}


/// A broadcast addresses exactly the roster less its sender: every roster member that is not the
/// caller — a child, a sibling, the lead alike — is a recipient, and every recipient is a roster
/// member that is not the caller.
pub proof fn law_a_broadcast_reaches_every_other_roster_member<S>(
    roster: Seq<RosterV<S>>,
    caller: ProcessId,
)
    ensures
        forall|i: int|
            0 <= i < roster.len() && (#[trigger] roster[i]).process != caller ==> others(
                roster,
                caller,
            ).contains(roster[i].process),
        forall|p: ProcessId|
            #[trigger] others(roster, caller).contains(p) ==> p != caller && exists|i: int|
                0 <= i < roster.len() && roster[i].process == p,
        others(roster, caller).len() <= roster.len(),
    decreases roster.len(),
{
    law_a_broadcast_skips_its_sender(roster, caller);
    if roster.len() > 0 {
        let d = roster.drop_last();
        law_a_broadcast_reaches_every_other_roster_member(d, caller);
        let rest = others(d, caller);
        let all = others(roster, caller);
        assert forall|i: int|
            0 <= i < roster.len() && (#[trigger] roster[i]).process != caller implies all.contains(
            roster[i].process,
        ) by {
            if i < d.len() {
                assert(d[i] == roster[i]);
                assert(rest.contains(d[i].process));
                let q = choose|q: int| 0 <= q < rest.len() && rest[q] == d[i].process;
                assert(all[q] == rest[q]);
            } else {
                assert(all[rest.len() as int] == roster.last().process);
            }
        }
        assert forall|p: ProcessId| #[trigger] all.contains(p) implies p != caller && exists|i: int|
            0 <= i < roster.len() && roster[i].process == p by {
            let q = choose|q: int| 0 <= q < all.len() && all[q] == p;
            if q < rest.len() {
                assert(rest[q] == p);
                assert(rest.contains(p));
                let i = choose|i: int| 0 <= i < d.len() && d[i].process == p;
                assert(roster[i] == d[i]);
            } else {
                assert(roster[roster.len() - 1].process == p);
            }
        }
    }
}


/// A broadcast's recipients are the roster's processes in roster order, with the sender's own
/// entries taken out and nothing else: the roster filtered by "is not the caller".
pub proof fn law_broadcast_recipients_are_the_roster_less_the_sender<S>(
    roster: Seq<RosterV<S>>,
    caller: ProcessId,
)
    ensures
        others(roster, caller) == roster.map_values(|e: RosterV<S>| e.process).filter(
            |p: ProcessId| p != caller,
        ),
    decreases roster.len(),
{
    reveal_with_fuel(Seq::filter, 1);
    let procs = roster.map_values(|e: RosterV<S>| e.process);
    if roster.len() > 0 {
        law_broadcast_recipients_are_the_roster_less_the_sender(roster.drop_last(), caller);
        assert(procs.drop_last() =~= roster.drop_last().map_values(|e: RosterV<S>| e.process));
        assert(procs.last() == roster.last().process);
    } else {
        assert(procs =~= Seq::<ProcessId>::empty());
    }
}

} // verus!
