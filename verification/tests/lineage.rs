//! Lineage reads against the live registry: edges and parents re-root when a lead leaves, the
//! roster names each live agent under the caller's root by its relationship, and a broadcast skips
//! its sender.

use soloist_core::ids::{ProcessId, ProjectId};
use soloist_core::lineage::{
    agent_roster, broadcast_recipients, lineage_edges, present_parent, AgentRelationship,
    LineageEdge, LiveAgent,
};

const PROJECT: ProjectId = ProjectId(1);

fn agent(id: u64, parent: Option<u64>, root: u64) -> LiveAgent<&'static str> {
    LiveAgent {
        id: ProcessId(id),
        project: PROJECT,
        is_agent: true,
        label: format!("agent-{id}"),
        parent: parent.map(ProcessId),
        root: ProcessId(root),
        status: if id % 2 == 0 { "running" } else { "idle" },
    }
}

#[test]
fn lineage_edges_omits_an_edge_whose_parent_left_the_registry() {
    let present = vec![ProcessId(1), ProcessId(2), ProcessId(4)];
    let edges = vec![
        (ProcessId(2), ProcessId(1)),
        (ProcessId(4), ProcessId(3)),
        (ProcessId(5), ProcessId(1)),
    ];
    assert_eq!(
        lineage_edges(&present, &edges),
        vec![LineageEdge {
            child: ProcessId(2),
            parent: ProcessId(1)
        }]
    );
}

#[test]
fn a_departed_lead_re_roots_its_worker() {
    let present = vec![ProcessId(2)];
    assert_eq!(present_parent(Some(ProcessId(1)), &present), None);
    assert_eq!(
        present_parent(Some(ProcessId(2)), &present),
        Some(ProcessId(2))
    );
    assert_eq!(present_parent(None, &present), None);
}

#[test]
fn the_roster_names_self_child_parent_and_sibling() {
    // 1 spawned 2 (the caller) and 3; 2 spawned 4. 5 is under another root.
    let live = vec![
        agent(1, None, 1),
        agent(2, Some(1), 1),
        agent(3, Some(1), 1),
        agent(4, Some(2), 1),
        agent(5, None, 5),
    ];
    let roster = agent_roster(PROJECT, ProcessId(2), Some(ProcessId(1)), ProcessId(1), &live);
    let got: Vec<(u64, AgentRelationship)> = roster
        .iter()
        .map(|e| (e.process.0, e.relationship))
        .collect();
    assert_eq!(
        got,
        vec![
            (1, AgentRelationship::Parent),
            (2, AgentRelationship::Self_),
            (3, AgentRelationship::Sibling),
            (4, AgentRelationship::Child),
        ]
    );
    assert_eq!(roster[3].parent, Some(ProcessId(2)));
    assert_eq!(roster[0].label, "agent-1");
    assert_eq!(roster[0].status, "idle");
    assert_eq!(roster[1].status, "running");
}

#[test]
fn the_roster_leaves_out_terminals_and_other_projects_and_drops_a_gone_parent() {
    let mut terminal = agent(6, None, 1);
    terminal.is_agent = false;
    let mut foreign = agent(7, None, 1);
    foreign.project = ProjectId(2);
    // 8's recorded parent 9 is not a live agent of the project.
    let live = vec![agent(1, None, 1), terminal, foreign, agent(8, Some(9), 1)];
    let roster = agent_roster(PROJECT, ProcessId(1), None, ProcessId(1), &live);
    let ids: Vec<u64> = roster.iter().map(|e| e.process.0).collect();
    assert_eq!(ids, vec![1, 8]);
    assert_eq!(roster[1].parent, None);
    assert_eq!(roster[1].relationship, AgentRelationship::Sibling);
}

#[test]
fn a_broadcast_addresses_everyone_but_the_sender() {
    let live = vec![agent(1, None, 1), agent(2, Some(1), 1), agent(3, Some(1), 1)];
    let roster = agent_roster(PROJECT, ProcessId(2), Some(ProcessId(1)), ProcessId(1), &live);
    assert_eq!(
        broadcast_recipients(&roster, ProcessId(2)),
        vec![ProcessId(1), ProcessId(3)]
    );
}
