//! The agent tree of a project, derived on read from the registry.

use soloist_core::ids::{ProcessId, ProjectId};
use soloist_core::orchestration::{agent_nodes, RegisteredProcess};
use soloist_core::snapshot::{orchestration_snapshot, report_timers};
use soloist_core::timer::{IdleMode, Timers};
use soloist_core::timer_repo::MemTimerRepo;
use soloist_core::todo::Todos;
use soloist_core::todo_doc::{TodoDoc, TodoStatus};
use soloist_core::todo_repo::MemTodoRepo;

fn process(id: u64, project: u64, parent: Option<u64>) -> RegisteredProcess<&'static str, &'static str, bool> {
    RegisteredProcess {
        id: ProcessId(id),
        project: ProjectId(project),
        label: format!("p{id}"),
        kind: "agent",
        status: "running",
        parent: parent.map(ProcessId),
        activity: id % 2 == 0,
    }
}

#[test]
fn the_tree_is_scoped_to_its_project() {
    let reg = vec![process(1, 1, None), process(2, 2, None), process(3, 1, Some(1))];
    let nodes = agent_nodes(&reg, ProjectId(1));
    let ids: Vec<u64> = nodes.iter().map(|n| n.id.0).collect();
    assert_eq!(ids, vec![1, 3]);
    assert_eq!(nodes[1].parent, Some(ProcessId(1)));
    assert_eq!(nodes[1].label, "p3");
    assert_eq!(nodes[0].status, "running");
}

#[test]
fn closing_a_lead_re_parents_its_worker_to_root() {
    // The lead 1 has left the registry; its worker 3 still records it as parent.
    let reg = vec![process(3, 1, Some(1)), process(4, 1, Some(3))];
    let nodes = agent_nodes(&reg, ProjectId(1));
    assert_eq!(nodes[0].parent, None);
    assert_eq!(nodes[1].parent, Some(ProcessId(3)));
    assert!(nodes[1].activity);
}

fn doc(title: &str) -> TodoDoc {
    TodoDoc {
        title: title.to_string(),
        body: String::new(),
        status: TodoStatus::Open,
    }
}

#[test]
fn the_snapshot_reads_one_project_and_reports_idle_timers() {
    let reg = vec![process(1, 1, None), process(2, 2, None), process(3, 1, Some(1))];
    let mut todos = Todos::new(MemTodoRepo::new());
    todos.create(ProjectId(1), doc("mine")).expect("create");
    todos.create(ProjectId(2), doc("theirs")).expect("create");
    let mut timers = Timers::new(MemTimerRepo::new());
    let now = 1_700_000_000_000;
    timers
        .set_when_idle(
            ProjectId(1),
            ProcessId(1),
            "go".into(),
            vec![ProcessId(3), ProcessId(9)],
            IdleMode::All,
            None,
            now,
        )
        .expect("set");
    timers
        .set(ProjectId(2), ProcessId(2), "elsewhere".into(), None, now)
        .expect("set");

    // 3 is busy; 9 is not in the table, so it has departed and counts as idle.
    let idle = vec![(ProcessId(1), true), (ProcessId(3), false)];
    let snap = orchestration_snapshot(&reg, ProjectId(1), &todos, &timers, &idle).expect("snapshot");

    assert_eq!(snap.project, ProjectId(1));
    let agents: Vec<u64> = snap.agents.iter().map(|n| n.id.0).collect();
    assert_eq!(agents, vec![1, 3]);
    assert_eq!(snap.todos.len(), 1);
    assert_eq!(snap.todos[0].doc.title, "mine");
    assert_eq!(snap.timers.len(), 1);
    assert_eq!(snap.timers[0].waiting_on, vec![ProcessId(3)]);
    assert!(!snap.timers[0].already_idle);

    // Once 3 is idle the quorum is met and nothing holds the timer back.
    let idle = vec![(ProcessId(3), true)];
    let snap = orchestration_snapshot(&reg, ProjectId(1), &todos, &timers, &idle).expect("snapshot");
    assert!(snap.timers[0].waiting_on.is_empty());
    assert!(snap.timers[0].already_idle);
}

#[test]
fn a_plain_timer_is_left_as_it_is() {
    let mut timers = Timers::new(MemTimerRepo::new());
    let view = timers
        .set(ProjectId(1), ProcessId(1), "ping".into(), Some(5), 100)
        .expect("set");
    let reported = report_timers(vec![view.clone()], &vec![(ProcessId(1), false)]);
    assert_eq!(reported, vec![view]);
}
