use soloist_core::ids::{AgentMessageId, ProcessId, ProjectId};
use soloist_core::todo::{TodoError, Todos};
use soloist_core::todo_comment::{CommentAuthor, CommentOutcome};
use soloist_core::todo_completion::{
    TodoCompletionKey, TodoCompletionNotice, TodoCompletionNoticeOutcome, TodoCompletionOccurrence,
};
use soloist_core::todo_doc::{TodoDoc, TodoStatus};
use soloist_core::todo_repo::{MemTodoRepo, TodoRepo};

const PROJECT: ProjectId = ProjectId(1);
const REPORTER: ProcessId = ProcessId(7);
const TASK: AgentMessageId = AgentMessageId(11);

fn doc(title: &str, status: TodoStatus) -> TodoDoc {
    TodoDoc {
        title: title.into(),
        body: "do it".into(),
        status,
    }
}

fn author() -> CommentAuthor {
    CommentAuthor::Process {
        id: REPORTER,
        label: "worker".into(),
    }
}

fn setup() -> Todos<MemTodoRepo> {
    Todos::new(MemTodoRepo::new())
}

#[test]
fn blockers_refuse_the_whole_completion() {
    let mut todos = setup();
    let blocker = todos
        .create(PROJECT, doc("dependency", TodoStatus::Open))
        .expect("create blocker");
    let todo = todos
        .create(PROJECT, doc("ship", TodoStatus::InProgress))
        .expect("create todo");
    todos
        .set_blockers(PROJECT, todo.id, vec![blocker.id])
        .expect("set blocker");

    let error = todos
        .report_completion(
            PROJECT,
            todo.id,
            TodoCompletionKey::for_test(REPORTER, TASK),
            "finished",
            author(),
        )
        .expect_err("an open blocker refuses completion");

    assert!(matches!(error, TodoError::Blocked { by } if by == vec![blocker.id]));
    let stored = todos.repo().read(PROJECT, todo.id).expect("read").expect("todo");
    assert_eq!(stored.doc.status, TodoStatus::InProgress);
    assert!(stored.comments.is_empty());
    assert_eq!(stored.completion, None);
}

#[test]
fn retry_returns_the_same_record_and_notice_disposition() {
    let mut todos = setup();
    let todo = todos
        .create(PROJECT, doc("ship", TodoStatus::InProgress))
        .expect("create todo");
    let key = TodoCompletionKey::for_test(REPORTER, TASK);

    let recorded = todos
        .report_completion(PROJECT, todo.id, key, "finished", author())
        .expect("record completion");
    assert_eq!(recorded.occurrence, TodoCompletionOccurrence::Recorded);
    assert_eq!(recorded.notice, TodoCompletionNotice::Required);

    let existing = todos
        .report_completion(PROJECT, todo.id, key, "a spoofed retry", author())
        .expect("idempotent retry");
    assert_eq!(existing.occurrence, TodoCompletionOccurrence::Existing);
    assert_eq!(existing.completion, recorded.completion);
    assert_eq!(existing.notice, TodoCompletionNotice::Required);

    assert_eq!(
        todos
            .mark_completion_notice_queued(PROJECT, &recorded.completion)
            .expect("mark queued"),
        TodoCompletionNoticeOutcome::Recorded
    );
    let after_notice = todos
        .report_completion(PROJECT, todo.id, key, "another retry", author())
        .expect("retry after notice");
    assert_eq!(after_notice.occurrence, TodoCompletionOccurrence::Existing);
    assert_eq!(after_notice.notice, TodoCompletionNotice::AlreadyQueued);
    assert_eq!(
        todos
            .repo()
            .read(PROJECT, todo.id)
            .expect("read")
            .expect("todo")
            .comments
            .len(),
        1
    );
}

#[test]
fn normal_writes_cannot_reopen_or_change_the_result_comment() {
    let mut todos = setup();
    let todo = todos
        .create(PROJECT, doc("ship", TodoStatus::InProgress))
        .expect("create todo");
    let completion = todos
        .report_completion(
            PROJECT,
            todo.id,
            TodoCompletionKey::for_test(REPORTER, TASK),
            "finished",
            author(),
        )
        .expect("complete")
        .completion;

    assert!(matches!(
        todos.update(PROJECT, todo.id, doc("ship", TodoStatus::Open), 2),
        Err(TodoError::CompletionProtected)
    ));
    assert_eq!(
        todos
            .comment_update(PROJECT, todo.id, completion.comment(), "changed")
            .expect("protected edit outcome"),
        CommentOutcome::CompletionProtected
    );
    assert_eq!(
        todos
            .comment_delete(PROJECT, todo.id, completion.comment())
            .expect("protected delete outcome"),
        CommentOutcome::CompletionProtected
    );
    let current = todos.get(PROJECT, todo.id).expect("read").expect("todo");
    assert_eq!(current.doc.status, TodoStatus::Done);
    assert_eq!(current.comments[0].body, "finished");
}

#[test]
fn another_task_cannot_claim_an_existing_completion() {
    let mut todos = setup();
    let todo = todos
        .create(PROJECT, doc("ship", TodoStatus::Open))
        .expect("create todo");
    todos
        .report_completion(
            PROJECT,
            todo.id,
            TodoCompletionKey::for_test(REPORTER, TASK),
            "finished",
            author(),
        )
        .expect("first report");

    assert!(matches!(
        todos.report_completion(
            PROJECT,
            todo.id,
            TodoCompletionKey::for_test(REPORTER, AgentMessageId::from_raw(12)),
            "claim",
            author(),
        ),
        Err(TodoError::CompletionConflict)
    ));
}

#[test]
fn a_stale_completion_cannot_mark_the_notice_and_a_queued_one_reports_so() {
    let mut todos = setup();
    let todo = todos.create(PROJECT, doc("ship", TodoStatus::Open)).unwrap();
    let key = TodoCompletionKey::for_test(REPORTER, TASK);
    let recorded = todos
        .report_completion(PROJECT, todo.id, key, "finished", author())
        .unwrap()
        .completion;
    assert_eq!(recorded.summary(), "finished");
    assert_eq!(recorded.key().reporter(), REPORTER);
    assert_eq!(recorded.key().task_message(), TASK);
    assert_eq!(recorded.todo_id(), todo.id);
    assert!(!recorded.notice_queued());
    assert_eq!(
        todos.mark_completion_notice_queued(PROJECT, &recorded).unwrap(),
        TodoCompletionNoticeOutcome::Recorded
    );
    // The same stale copy again: the record on file is queued under the same key.
    assert_eq!(
        todos.mark_completion_notice_queued(PROJECT, &recorded).unwrap(),
        TodoCompletionNoticeOutcome::AlreadyQueued
    );
    // A todo that is not in the project.
    assert!(matches!(
        todos.mark_completion_notice_queued(ProjectId(9), &recorded),
        Err(TodoError::NotFound)
    ));
}

#[test]
fn a_completion_result_is_a_fresh_comment_after_existing_ones() {
    let mut todos = setup();
    let todo = todos.create(PROJECT, doc("ship", TodoStatus::Open)).unwrap();
    todos.comment_create(PROJECT, todo.id, "first", None).unwrap();
    let outcome = todos
        .report_completion(
            PROJECT,
            todo.id,
            TodoCompletionKey::for_test(REPORTER, TASK),
            "done and dusted",
            author(),
        )
        .unwrap();
    assert_eq!(outcome.completion.comment(), 2);
    let view = todos.get(PROJECT, todo.id).unwrap().unwrap();
    assert_eq!(view.comments.len(), 2);
    assert_eq!(view.comments[1].author, Some(author()));
    assert_eq!(view.revision, 2);
}
