//! Link resolution within scope, and the icon extension rule.

use soloist_core::coordination::CoordinationError;
use soloist_core::icon::{is_supported_extension, is_supported_icon};
use soloist_core::ids::{ProjectId, ScratchpadId, TodoId};
use soloist_core::link::{link_in_scope, scratchpad_name};
use soloist_core::project_work::ScratchpadSummary;
use soloist_core::scoped::{scope_guard, ScopedActionError};
use soloist_core::todo::Todos;
use soloist_core::todo_doc::{TodoDoc, TodoStatus};
use soloist_core::todo_repo::MemTodoRepo;

#[test]
fn a_link_to_another_project_is_refused() {
    assert!(link_in_scope(ProjectId(1), ProjectId(1)).is_ok());
    assert!(matches!(
        link_in_scope(ProjectId(2), ProjectId(1)),
        Err(CoordinationError::ForeignScopeLink)
    ));
}

#[test]
fn a_scratchpad_id_maps_to_its_current_name() {
    let pads = vec![
        ScratchpadSummary {
            id: ScratchpadId(1),
            name: "plan".into(),
        },
        ScratchpadSummary {
            id: ScratchpadId(2),
            name: "notes".into(),
        },
    ];
    assert_eq!(scratchpad_name(&pads, ScratchpadId(2)).expect("known"), "notes");
    assert!(matches!(
        scratchpad_name(&pads, ScratchpadId(3)),
        Err(CoordinationError::UnknownScratchpad)
    ));
}

#[test]
fn a_todo_link_resolves_within_scope_only() {
    let mut todos = Todos::new(MemTodoRepo::new());
    let t = todos
        .create(
            ProjectId(1),
            TodoDoc {
                title: "ship".into(),
                body: String::new(),
                status: TodoStatus::Open,
            },
        )
        .expect("create");
    let v = todos
        .resolve_todo_link(ProjectId(1), ProjectId(1), t.id)
        .expect("resolves");
    assert_eq!(v.doc.title, "ship");
    assert!(matches!(
        todos.resolve_todo_link(ProjectId(1), ProjectId(2), t.id),
        Err(CoordinationError::ForeignScopeLink)
    ));
    assert!(matches!(
        todos.resolve_todo_link(ProjectId(1), ProjectId(1), TodoId(99)),
        Err(CoordinationError::UnknownTodo)
    ));
}

#[test]
fn supported_icons_match_their_extension_in_any_case() {
    assert!(is_supported_icon("assets/logo.png"));
    assert!(is_supported_icon("logo.JPEG"));
    assert!(is_supported_icon("/a/b/icon.WebP"));
    assert!(!is_supported_icon("logo.svg"));
    assert!(!is_supported_icon("png"));
    assert!(!is_supported_icon(".png"));
    assert!(!is_supported_icon("archive.png.zip"));
    assert!(is_supported_extension("Gif"));
    assert!(!is_supported_extension("tiff"));
}

#[test]
fn the_scope_guard_checks_the_process_then_the_scope_then_the_match() {
    assert!(scope_guard(Some(ProjectId(1)), Some(ProjectId(1))).is_ok());
    assert!(matches!(
        scope_guard(None, None),
        Err(ScopedActionError::UnknownProcess)
    ));
    assert!(matches!(
        scope_guard(Some(ProjectId(1)), None),
        Err(ScopedActionError::NoProjectScope)
    ));
    assert!(matches!(
        scope_guard(Some(ProjectId(1)), Some(ProjectId(2))),
        Err(ScopedActionError::OutOfScope)
    ));
}
