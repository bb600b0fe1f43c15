//! What the project-work read model reports, joined over todos seeded through the todo aggregate,
//! scratchpad summaries, and the live registry with what each process was recorded touching.

use soloist_core::ids::{ProcessId, ProjectId, ScratchpadId, TodoId};
use soloist_core::project_work::{
    project_work, AccessKind, DocumentParticipant, DocumentRole, LiveProcess, ProjectWork,
    ScratchpadSummary, TodoWork,
};
use soloist_core::todo::Todos;
use soloist_core::todo_doc::{TodoDoc, TodoStatus};
use soloist_core::todo_repo::MemTodoRepo;

const PROJECT: ProjectId = ProjectId(1);

fn todo_doc(title: &str) -> TodoDoc {
    TodoDoc {
        title: title.into(),
        body: format!("do {title}"),
        status: TodoStatus::Open,
    }
}

/// A live process of `project` that has recorded nothing yet.
fn live(id: u64, project: ProjectId, label: &str) -> LiveProcess {
    LiveProcess {
        id: ProcessId(id),
        project,
        label: label.into(),
        todos: Vec::new(),
        scratchpads: Vec::new(),
    }
}

fn participant(process: ProcessId, label: &str, role: DocumentRole) -> DocumentParticipant {
    DocumentParticipant {
        process,
        label: label.into(),
        role,
    }
}

fn work_of(work: &ProjectWork, id: TodoId) -> &TodoWork {
    work.todos
        .iter()
        .find(|todo| todo.id == id)
        .unwrap_or_else(|| panic!("todo {id:?} is present"))
}

/// The read model of `project` over the todos in `todos`, the registry `registry`, and `pads`.
fn query(
    todos: &Todos<MemTodoRepo>,
    project: ProjectId,
    registry: Vec<LiveProcess>,
    pads: Vec<ScratchpadSummary>,
) -> ProjectWork {
    project_work(project, registry, todos.list(project).expect("list"), pads)
}

#[test]
fn names_the_role_a_bound_session_earned_on_each_document() {
    let mut todos = Todos::new(MemTodoRepo::new());
    let read_todo = todos.create(PROJECT, todo_doc("read me")).expect("seed").id;
    let write_todo = todos.create(PROJECT, todo_doc("write me")).expect("seed").id;
    let lock_todo = todos.create(PROJECT, todo_doc("lock me")).expect("seed").id;
    let process = ProcessId(11);

    let mut lead = live(11, PROJECT, "lead");
    lead.todos.push((read_todo, AccessKind::Loaded));
    todos.add_tag(PROJECT, write_todo, "urgent").expect("write");
    lead.todos.push((write_todo, AccessKind::Worked));
    todos.lock(PROJECT, lock_todo, process).expect("lock");
    lead.todos.push((lock_todo, AccessKind::Worked));

    let work = query(&todos, PROJECT, vec![lead], Vec::new());
    assert_eq!(
        work_of(&work, read_todo).participants,
        vec![participant(process, "lead", DocumentRole::Reading)]
    );
    assert_eq!(
        work_of(&work, write_todo).participants,
        vec![participant(process, "lead", DocumentRole::Editing)]
    );
    assert_eq!(
        work_of(&work, lock_todo).participants,
        vec![participant(process, "lead", DocumentRole::Implementing)]
    );
}

#[test]
fn omits_a_todo_the_owner_marked_done() {
    let mut todos = Todos::new(MemTodoRepo::new());
    let todo = todos.create(PROJECT, todo_doc("ship")).expect("seed").id;
    let process = ProcessId(11);
    todos.lock(PROJECT, todo, process).expect("lock");
    let mut lead = live(11, PROJECT, "lead");
    lead.todos.push((todo, AccessKind::Worked));

    todos.complete(PROJECT, todo).expect("done");

    let work = query(&todos, PROJECT, vec![lead], Vec::new());
    assert!(
        work.todos.iter().all(|entry| entry.id != todo),
        "a done todo never appears, however it was touched"
    );
}

#[test]
fn omits_a_document_touched_only_by_a_process_outside_the_registry() {
    let mut todos = Todos::new(MemTodoRepo::new());
    let touched = todos.create(PROJECT, todo_doc("touched")).expect("seed").id;
    let locked = todos.create(PROJECT, todo_doc("locked")).expect("seed").id;
    let ghost = ProcessId(999_999);
    todos
        .lock(PROJECT, locked, ghost)
        .expect("lock through the store directly")
        .expect("the todo exists");

    // The ghost recorded a read of `touched`, but it is not in the registry handed to the query.
    let work = query(&todos, PROJECT, Vec::new(), Vec::new());
    assert!(
        work.todos.iter().all(|entry| entry.id != touched),
        "a recorded access from a process outside the registry never appears"
    );
    assert!(
        work.todos.iter().all(|entry| entry.id != locked),
        "a lock held by a process outside the registry never appears"
    );
}

#[test]
fn lists_one_document_once_with_every_live_participant() {
    let mut todos = Todos::new(MemTodoRepo::new());
    let todo = todos.create(PROJECT, todo_doc("ship")).expect("seed").id;
    let holder = ProcessId(11);
    let reader = ProcessId(12);
    todos.lock(PROJECT, todo, holder).expect("lock");
    let mut lead = live(11, PROJECT, "lead");
    lead.todos.push((todo, AccessKind::Worked));
    let mut worker = live(12, PROJECT, "worker");
    worker.todos.push((todo, AccessKind::Loaded));

    // The registry lists the worker first; the read model orders participants by process id.
    let work = query(&todos, PROJECT, vec![worker, lead], Vec::new());
    assert_eq!(work.todos.len(), 1);
    assert_eq!(
        work_of(&work, todo).participants,
        vec![
            participant(holder, "lead", DocumentRole::Implementing),
            participant(reader, "worker", DocumentRole::Reading),
        ],
        "one row, both participants, ordered by ascending process id"
    );
}

#[test]
fn reports_a_lock_holder_that_recorded_no_tool_access() {
    let mut todos = Todos::new(MemTodoRepo::new());
    let todo = todos.create(PROJECT, todo_doc("ship")).expect("seed").id;
    let process = ProcessId(11);
    todos
        .lock(PROJECT, todo, process)
        .expect("lock through the store directly")
        .expect("the todo exists");

    let work = query(&todos, PROJECT, vec![live(11, PROJECT, "lead")], Vec::new());
    assert_eq!(
        work_of(&work, todo).participants,
        vec![participant(process, "lead", DocumentRole::Implementing)],
        "a held lock is live work even with nothing recorded through a tool"
    );
}

#[test]
fn keeps_documents_of_other_projects_out() {
    let project_a = ProjectId(1);
    let project_b = ProjectId(2);
    let mut todos = Todos::new(MemTodoRepo::new());
    let todo_a = todos.create(project_a, todo_doc("in a")).expect("seed").id;
    let todo_b = todos.create(project_b, todo_doc("in b")).expect("seed").id;
    let mut agent_a = live(11, project_a, "lead-a");
    agent_a.todos.push((todo_a, AccessKind::Loaded));
    let mut agent_b = live(12, project_b, "lead-b");
    agent_b.todos.push((todo_b, AccessKind::Loaded));
    let registry = vec![agent_a, agent_b];

    let work_a = query(&todos, project_a, registry.clone(), Vec::new());
    let work_b = query(&todos, project_b, registry, Vec::new());

    assert_eq!(
        work_a.todos.iter().map(|t| t.id).collect::<Vec<_>>(),
        vec![todo_a]
    );
    assert_eq!(
        work_b.todos.iter().map(|t| t.id).collect::<Vec<_>>(),
        vec![todo_b]
    );
}

#[test]
fn reports_a_scratchpad_write_as_editing_and_a_read_as_reading() {
    let todos = Todos::new(MemTodoRepo::new());
    let read_pad = ScratchpadId(1);
    let write_pad = ScratchpadId(2);
    let pads = vec![
        ScratchpadSummary {
            id: read_pad,
            name: "read-me".into(),
        },
        ScratchpadSummary {
            id: write_pad,
            name: "write-me".into(),
        },
    ];
    let process = ProcessId(11);
    let mut lead = live(11, PROJECT, "lead");
    lead.scratchpads.push((read_pad, AccessKind::Loaded));
    lead.scratchpads.push((write_pad, AccessKind::Worked));

    let work = query(&todos, PROJECT, vec![lead], pads);
    let read_entry = work
        .scratchpads
        .iter()
        .find(|entry| entry.id == read_pad)
        .expect("the read scratchpad is present");
    assert_eq!(read_entry.name, "read-me");
    assert_eq!(
        read_entry.participants,
        vec![participant(process, "lead", DocumentRole::Reading)]
    );
    let write_entry = work
        .scratchpads
        .iter()
        .find(|entry| entry.id == write_pad)
        .expect("the written scratchpad is present");
    assert_eq!(
        write_entry.participants,
        vec![participant(process, "lead", DocumentRole::Editing)]
    );
}

// ---------------------------------------------------------------------------------------------
// Further cases of the join.
// ---------------------------------------------------------------------------------------------

#[test]
fn a_recorded_id_with_no_document_names_nothing() {
    let todos = Todos::new(MemTodoRepo::new());
    let mut lead = live(11, PROJECT, "lead");
    lead.todos.push((TodoId(99), AccessKind::Worked));
    lead.scratchpads.push((ScratchpadId(99), AccessKind::Worked));
    let work = query(&todos, PROJECT, vec![lead], Vec::new());
    assert!(work.todos.is_empty());
    assert!(work.scratchpads.is_empty());
}

#[test]
fn the_first_recorded_access_decides_the_role() {
    let mut todos = Todos::new(MemTodoRepo::new());
    let todo = todos.create(PROJECT, todo_doc("one")).expect("seed").id;
    let mut p = live(11, PROJECT, "p");
    p.todos.push((todo, AccessKind::Worked));
    p.todos.push((todo, AccessKind::Loaded));
    let work = query(&todos, PROJECT, vec![p], Vec::new());
    assert_eq!(work_of(&work, todo).participants[0].role, DocumentRole::Editing);
}

#[test]
fn participants_with_equal_ids_keep_registry_order() {
    let mut todos = Todos::new(MemTodoRepo::new());
    let todo = todos.create(PROJECT, todo_doc("one")).expect("seed").id;
    let mut first = live(5, PROJECT, "first");
    first.todos.push((todo, AccessKind::Loaded));
    let mut second = live(5, PROJECT, "second");
    second.todos.push((todo, AccessKind::Loaded));
    let mut early = live(3, PROJECT, "early");
    early.todos.push((todo, AccessKind::Loaded));
    let work = query(&todos, PROJECT, vec![first, second, early], Vec::new());
    let labels: Vec<&str> = work_of(&work, todo)
        .participants
        .iter()
        .map(|p| p.label.as_str())
        .collect();
    assert_eq!(labels, vec!["early", "first", "second"]);
}

#[test]
fn a_project_with_nothing_touched_reports_empty_lists() {
    let work = project_work(PROJECT, Vec::new(), Vec::new(), Vec::new());
    assert_eq!(work.project, PROJECT);
    assert!(work.todos.is_empty());
    assert!(work.scratchpads.is_empty());
}
