use soloist_core::ids::{ProcessId, ProjectId, TodoId};
use soloist_core::todo::{TodoError, Todos};
use soloist_core::todo_comment::{CommentAuthor, CommentOutcome};
use soloist_core::todo_doc::{TodoDoc, TodoStatus, MAX_TODO_DOC_BYTES};
use soloist_core::todo_repo::{MemTodoRepo, NoopTodoRepo};

const PROJECT: ProjectId = ProjectId(1);

fn todos() -> Todos<MemTodoRepo> {
    Todos::new(MemTodoRepo::new())
}

fn doc(title: &str, status: TodoStatus) -> TodoDoc {
    TodoDoc {
        title: title.into(),
        body: "do the thing".into(),
        status,
    }
}

#[test]
fn create_then_get_round_trips_the_document() {
    let mut todos = todos();
    let created = todos
        .create(PROJECT, doc("ship", TodoStatus::Open))
        .expect("create succeeds");
    assert_eq!(created.revision, 1);
    assert_eq!(created.doc.title, "ship");
    assert!(!created.blocked);

    let fetched = todos
        .get(PROJECT, created.id)
        .expect("get succeeds")
        .expect("the todo exists");
    assert_eq!(fetched, created);
}

#[test]
fn a_blank_required_field_is_rejected_naming_every_problem() {
    let mut todos = todos();
    let mut bad = TodoDoc {
        title: "  ".into(),
        body: String::new(),
        status: TodoStatus::Open,
    };
    bad.body = "x".repeat(MAX_TODO_DOC_BYTES);
    let err = todos
        .create(PROJECT, bad)
        .expect_err("a blank doc is refused");
    let TodoError::Invalid(message) = err else {
        panic!("expected an Invalid error, got {err:?}");
    };
    assert!(message.contains("title"), "{message}");
    assert!(message.contains("exceeds"), "{message}");
    assert_eq!(
        message,
        "title must not be blank; the document exceeds the 64 KiB cap"
    );
}

#[test]
fn a_blank_body_is_a_valid_document() {
    let mut todos = todos();
    let created = todos
        .create(
            PROJECT,
            TodoDoc {
                title: "t".into(),
                body: String::new(),
                status: TodoStatus::Open,
            },
        )
        .expect("a blank body is valid");
    assert_eq!(created.doc.body, "");
}

#[test]
fn a_document_over_the_byte_cap_is_rejected() {
    let mut todos = todos();
    let mut oversized = doc("ship", TodoStatus::Open);
    oversized.body = "x".repeat(MAX_TODO_DOC_BYTES + 1);
    let err = todos
        .create(PROJECT, oversized)
        .expect_err("a document past the cap is refused");
    let TodoError::Invalid(message) = err else {
        panic!("expected an Invalid error, got {err:?}");
    };
    assert!(message.contains("exceeds"), "{message}");
}

#[test]
fn a_document_exactly_at_the_byte_cap_is_accepted() {
    let mut todos = todos();
    let mut at_cap = doc("ship", TodoStatus::Open);
    at_cap.body = "x".repeat(MAX_TODO_DOC_BYTES - "ship".len());
    todos.create(PROJECT, at_cap).expect("at the cap is fine");
}

#[test]
fn update_is_revision_guarded() {
    let mut todos = todos();
    let todo = todos
        .create(PROJECT, doc("v1", TodoStatus::Open))
        .expect("create");

    // A stale revision is refused and changes nothing.
    let stale = todos
        .update(PROJECT, todo.id, doc("v2", TodoStatus::InProgress), 99)
        .expect_err("a stale update is refused");
    assert!(matches!(
        stale,
        TodoError::Conflict {
            expected: Some(99),
            actual: Some(1)
        }
    ));

    // The current revision applies and bumps.
    let updated = todos
        .update(PROJECT, todo.id, doc("v2", TodoStatus::InProgress), 1)
        .expect("a current-revision update applies");
    assert_eq!(updated.revision, 2);
    assert_eq!(updated.doc.title, "v2");
}

#[test]
fn a_todo_stays_gated_until_its_blocker_completes() {
    let mut todos = todos();
    let blocker = todos
        .create(PROJECT, doc("dependency", TodoStatus::Open))
        .expect("create blocker");
    let gated = todos
        .create(PROJECT, doc("dependent", TodoStatus::Open))
        .expect("create dependent");
    todos
        .set_blockers(PROJECT, gated.id, vec![blocker.id])
        .expect("set the blocker");

    let view = todos.get(PROJECT, gated.id).unwrap().unwrap();
    assert!(view.blocked);
    assert_eq!(view.blocked_by, vec![blocker.id]);
    let refused = todos
        .complete(PROJECT, gated.id)
        .expect_err("a blocked todo cannot complete");
    assert!(matches!(refused, TodoError::Blocked { by } if by == vec![blocker.id]));

    todos
        .complete(PROJECT, blocker.id)
        .expect("complete blocker");
    let now = todos.get(PROJECT, gated.id).unwrap().unwrap();
    assert!(!now.blocked, "the barrier lifts once the blocker is done");
    let done = todos
        .complete(PROJECT, gated.id)
        .expect("the dependent can now complete");
    assert_eq!(done.doc.status, TodoStatus::Done);
}

#[test]
fn an_update_to_done_is_gated_too() {
    let mut todos = todos();
    let blocker = todos.create(PROJECT, doc("first", TodoStatus::Open)).unwrap();
    let gated = todos.create(PROJECT, doc("second", TodoStatus::Open)).unwrap();
    todos.add_blocker(PROJECT, gated.id, blocker.id).unwrap();
    let refused = todos
        .update(PROJECT, gated.id, doc("second", TodoStatus::Done), 1)
        .expect_err("done is gated");
    assert!(matches!(refused, TodoError::Blocked { by } if by == vec![blocker.id]));
    // Any other status is not gated.
    todos
        .update(PROJECT, gated.id, doc("second", TodoStatus::InProgress), 1)
        .expect("in progress is not gated");
}

#[test]
fn a_deleted_blocker_does_not_deadlock_a_todo() {
    let mut todos = todos();
    let blocker = todos
        .create(PROJECT, doc("gone", TodoStatus::Open))
        .unwrap();
    let gated = todos
        .create(PROJECT, doc("free", TodoStatus::Open))
        .unwrap();
    todos
        .set_blockers(PROJECT, gated.id, vec![blocker.id])
        .unwrap();

    assert!(todos.delete(PROJECT, blocker.id).unwrap());

    let view = todos.get(PROJECT, gated.id).unwrap().unwrap();
    assert!(!view.blocked);
    todos
        .complete(PROJECT, gated.id)
        .expect("a todo with only deleted blockers can complete");
}

#[test]
fn a_blocker_must_exist_and_not_be_the_todo_itself() {
    let mut todos = todos();
    let todo = todos
        .create(PROJECT, doc("self", TodoStatus::Open))
        .unwrap();

    let self_block = todos
        .add_blocker(PROJECT, todo.id, todo.id)
        .expect_err("a todo cannot block itself");
    assert!(matches!(self_block, TodoError::SelfBlocker));

    let missing = todos
        .add_blocker(PROJECT, todo.id, TodoId::from_raw(9999))
        .expect_err("a non-existent blocker is refused");
    assert!(matches!(missing, TodoError::UnknownBlocker));
}

#[test]
fn tags_are_idempotent_and_listed_distinct() {
    let mut todos = todos();
    let todo = todos
        .create(PROJECT, doc("tagged", TodoStatus::Open))
        .unwrap();
    todos.add_tag(PROJECT, todo.id, "p1").unwrap();
    todos.add_tag(PROJECT, todo.id, "p1").unwrap();
    let view = todos.add_tag(PROJECT, todo.id, "ui").unwrap().unwrap();
    assert_eq!(view.tags, vec!["p1".to_string(), "ui".to_string()]);

    assert_eq!(
        todos.tags(PROJECT).unwrap(),
        vec!["p1".to_string(), "ui".to_string()]
    );

    let removed = todos.remove_tag(PROJECT, todo.id, "p1").unwrap().unwrap();
    assert_eq!(removed.tags, vec!["ui".to_string()]);
}

#[test]
fn the_project_tag_list_is_sorted_and_distinct_across_todos() {
    let mut todos = todos();
    let a = todos.create(PROJECT, doc("a", TodoStatus::Open)).unwrap();
    let b = todos.create(PROJECT, doc("b", TodoStatus::Open)).unwrap();
    let other = todos.create(ProjectId(2), doc("c", TodoStatus::Open)).unwrap();
    todos.add_tag(PROJECT, a.id, "zeta").unwrap();
    todos.add_tag(PROJECT, a.id, "alpha").unwrap();
    todos.add_tag(PROJECT, b.id, "mid").unwrap();
    todos.add_tag(PROJECT, b.id, "alpha").unwrap();
    todos.add_tag(ProjectId(2), other.id, "elsewhere").unwrap();
    assert_eq!(
        todos.tags(PROJECT).unwrap(),
        vec!["alpha".to_string(), "mid".to_string(), "zeta".to_string()]
    );
}

#[test]
fn a_lock_is_a_signal_and_releases_when_the_owner_closes() {
    let mut todos = todos();
    let todo = todos
        .create(PROJECT, doc("locked", TodoStatus::Open))
        .unwrap();
    let alice = ProcessId::from_raw(10);
    let bob = ProcessId::from_raw(20);

    let held = todos.lock(PROJECT, todo.id, alice).unwrap().unwrap();
    assert_eq!(held.locked_by, Some(alice));

    let contested = todos.lock(PROJECT, todo.id, bob).unwrap().unwrap();
    assert_eq!(contested.locked_by, Some(alice));

    assert_eq!(todos.release_owner(alice).unwrap(), 1);
    let freed = todos.get(PROJECT, todo.id).unwrap().unwrap();
    assert_eq!(freed.locked_by, None);
}

#[test]
fn only_the_holder_unlocks() {
    let mut todos = todos();
    let todo = todos.create(PROJECT, doc("locked", TodoStatus::Open)).unwrap();
    let alice = ProcessId(10);
    let bob = ProcessId(20);
    todos.lock(PROJECT, todo.id, alice).unwrap();
    let still = todos.unlock(PROJECT, todo.id, bob).unwrap().unwrap();
    assert_eq!(still.locked_by, Some(alice));
    let freed = todos.unlock(PROJECT, todo.id, alice).unwrap().unwrap();
    assert_eq!(freed.locked_by, None);
}

#[test]
fn reconcile_clears_locks_but_keeps_the_todos() {
    let mut todos = todos();
    let todo = todos
        .create(PROJECT, doc("survivor", TodoStatus::Open))
        .unwrap();
    todos
        .lock(PROJECT, todo.id, ProcessId::from_raw(7))
        .unwrap();

    assert_eq!(todos.reconcile().unwrap(), 1);
    let after = todos
        .get(PROJECT, todo.id)
        .unwrap()
        .expect("the todo survives reconcile");
    assert_eq!(after.locked_by, None, "only the lock is cleared");
}

#[test]
fn comments_create_update_delete_and_list() {
    let mut todos = todos();
    let todo = todos
        .create(PROJECT, doc("discuss", TodoStatus::Open))
        .unwrap();

    let (_, first) = todos
        .comment_create(PROJECT, todo.id, "looks good", None)
        .unwrap()
        .unwrap();
    let (_, second) = todos
        .comment_create(PROJECT, todo.id, "ship it", None)
        .unwrap()
        .unwrap();
    assert_ne!(first, second);

    let edited = todos
        .comment_update(PROJECT, todo.id, first, "looks great")
        .unwrap();
    assert!(matches!(edited, CommentOutcome::Edited(_)));

    let missing = todos
        .comment_update(PROJECT, todo.id, 999, "ghost")
        .unwrap();
    assert!(matches!(missing, CommentOutcome::NoComment));

    todos.comment_delete(PROJECT, todo.id, second).unwrap();
    let remaining = todos
        .comment_list(PROJECT, todo.id)
        .unwrap()
        .expect("the todo exists");
    assert_eq!(remaining.len(), 1);
    assert_eq!(remaining[0].body, "looks great");
}

#[test]
fn a_comment_id_is_never_reused_within_a_todo() {
    let mut todos = todos();
    let todo = todos.create(PROJECT, doc("discuss", TodoStatus::Open)).unwrap();
    let (_, first) = todos.comment_create(PROJECT, todo.id, "a", None).unwrap().unwrap();
    let (_, second) = todos.comment_create(PROJECT, todo.id, "b", None).unwrap().unwrap();
    assert_eq!((first, second), (1, 2));
    todos.comment_delete(PROJECT, todo.id, first).unwrap();
    let (_, third) = todos.comment_create(PROJECT, todo.id, "c", None).unwrap().unwrap();
    assert_eq!(third, 3);
    assert!(matches!(
        todos.comment_update(PROJECT, TodoId(9999), 1, "x").unwrap(),
        CommentOutcome::NoTodo
    ));
}

#[test]
fn a_comment_carries_the_author_it_was_stamped_with() {
    let mut todos = todos();
    let todo = todos
        .create(PROJECT, doc("discuss", TodoStatus::Open))
        .unwrap();
    let author = CommentAuthor::Process {
        id: ProcessId::from_raw(2),
        label: "Web".into(),
    };
    let (view, _) = todos
        .comment_create(PROJECT, todo.id, "looks good", Some(author.clone()))
        .unwrap()
        .expect("the todo exists");
    assert_eq!(view.comments[0].author, Some(author));
}

#[test]
fn list_and_views_keep_creation_order_within_the_project() {
    let mut todos = todos();
    let a = todos.create(PROJECT, doc("a", TodoStatus::Open)).unwrap();
    todos.create(ProjectId(2), doc("elsewhere", TodoStatus::Open)).unwrap();
    let b = todos.create(PROJECT, doc("b", TodoStatus::InProgress)).unwrap();
    let list = todos.list(PROJECT).unwrap();
    assert_eq!(list.iter().map(|s| s.id).collect::<Vec<_>>(), vec![a.id, b.id]);
    assert_eq!(list[1].title, "b");
    assert_eq!(list[1].status, TodoStatus::InProgress);
    let views = todos.views(PROJECT).unwrap();
    assert_eq!(views, vec![a, b]);
}

#[test]
fn a_todo_of_another_project_is_not_found() {
    let mut todos = todos();
    let todo = todos.create(PROJECT, doc("mine", TodoStatus::Open)).unwrap();
    assert_eq!(todos.get(ProjectId(2), todo.id).unwrap(), None);
    assert!(matches!(
        todos.complete(ProjectId(2), todo.id),
        Err(TodoError::NotFound)
    ));
    assert!(!todos.delete(ProjectId(2), todo.id).unwrap());
}

#[test]
fn transfer_moves_the_todo_and_clears_its_blockers_and_lock() {
    let mut todos = todos();
    let blocker = todos.create(PROJECT, doc("b", TodoStatus::Open)).unwrap();
    let todo = todos.create(PROJECT, doc("moving", TodoStatus::Open)).unwrap();
    todos.add_blocker(PROJECT, todo.id, blocker.id).unwrap();
    todos.add_tag(PROJECT, todo.id, "keep").unwrap();
    todos.lock(PROJECT, todo.id, ProcessId(3)).unwrap();
    let moved = todos
        .transfer(PROJECT, ProjectId(2), todo.id)
        .unwrap()
        .expect("moved");
    assert_eq!(moved.id, todo.id);
    assert!(moved.blockers.is_empty());
    assert_eq!(moved.locked_by, None);
    assert_eq!(moved.tags, vec!["keep".to_string()]);
    assert_eq!(todos.get(PROJECT, todo.id).unwrap(), None);
    assert_eq!(todos.get(ProjectId(2), todo.id).unwrap(), Some(moved));
}

#[test]
fn a_store_that_keeps_nothing_echoes_a_create_and_reads_empty() {
    let mut todos = Todos::new(NoopTodoRepo);
    let created = todos.create(PROJECT, doc("echo", TodoStatus::Open)).unwrap();
    assert_eq!(created.revision, 1);
    assert_eq!(todos.get(PROJECT, created.id).unwrap(), None);
    assert!(todos.list(PROJECT).unwrap().is_empty());
    assert!(matches!(
        todos.update(PROJECT, created.id, doc("x", TodoStatus::Open), 1),
        Err(TodoError::NotFound)
    ));
}

#[test]
fn listing_and_reading_agree() {
    let mut todos = todos();
    let a = todos.create(PROJECT, doc("a", TodoStatus::Open)).expect("create");
    let b = todos.create(PROJECT, doc("b", TodoStatus::InProgress)).expect("create");
    todos.set_blockers(PROJECT, b.id, vec![a.id]).expect("block");
    for summary in todos.list(PROJECT).expect("list") {
        let view = todos.get(PROJECT, summary.id).expect("get").expect("present");
        assert_eq!(summary.title, view.doc.title);
        assert_eq!(summary.status, view.doc.status);
        assert_eq!(summary.blocked, view.blocked);
        assert_eq!(summary.revision, view.revision);
    }
}

#[test]
fn adding_a_tag_twice_keeps_one() {
    let mut todos = todos();
    let t = todos.create(PROJECT, doc("t", TodoStatus::Open)).expect("create");
    todos.add_tag(PROJECT, t.id, "urgent").expect("tag");
    let again = todos
        .add_tag(PROJECT, t.id, "urgent")
        .expect("tag")
        .expect("present");
    assert_eq!(again.tags, vec!["urgent".to_string()]);
}
