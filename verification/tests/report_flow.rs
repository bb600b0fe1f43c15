//! The course of a completion report, driven event by event, and the broadcast receipt.

use soloist_core::ids::{AgentMessageId, ProcessId, ProjectId, TodoId};
use soloist_core::mailbox::{
    broadcast_receipt, AgentMailboxError, AgentMessageOutcome, AgentMessageReceipt,
    CompletionNotification,
};
use soloist_core::report_flow::{report_step, ReportAction, ReportEvent, ReportRequest, ReportState};
use soloist_core::scoped::effective_project;
use soloist_core::todo::Todos;
use soloist_core::todo_comment::CommentAuthor;
use soloist_core::todo_completion::{TodoCompletionNotice, TodoCompletionOccurrence};
use soloist_core::todo_doc::{TodoDoc, TodoStatus};
use soloist_core::todo_repo::MemTodoRepo;

const PROJECT: ProjectId = ProjectId(1);
const WORKER: ProcessId = ProcessId(7);
const LEAD: ProcessId = ProcessId(3);
const TASK: AgentMessageId = AgentMessageId(11);

type Step = (ReportState<&'static str>, ReportAction<&'static str>);

fn step(state: ReportState<&'static str>, event: ReportEvent<&'static str>) -> Step {
    report_step(state, event)
}

fn started(todo: Option<TodoId>) -> ReportState<&'static str> {
    let (state, action) = step(
        ReportState::Start(ReportRequest { task_message: TASK, todo }),
        ReportEvent::Begin { summary_bytes: 8, max_bytes: 100 },
    );
    assert!(matches!(action, ReportAction::Identify));
    let (state, action) = step(state, ReportEvent::Identified(Ok((PROJECT, WORKER))));
    assert!(matches!(
        action,
        ReportAction::FindTask { project: PROJECT, sender: WORKER, task_message: TASK }
    ));
    state
}

fn author() -> CommentAuthor {
    CommentAuthor::Process { id: WORKER, label: "worker".into() }
}

#[test]
fn an_oversized_summary_is_refused_first() {
    let (state, action) = step(
        ReportState::Start(ReportRequest { task_message: TASK, todo: None }),
        ReportEvent::Begin { summary_bytes: 101, max_bytes: 100 },
    );
    assert!(matches!(state, ReportState::Finished));
    assert!(matches!(action, ReportAction::Finish(Err(AgentMailboxError::MessageTooLarge))));
}

#[test]
fn an_unknown_task_or_another_todo_is_refused() {
    let (_, action) = step(started(None), ReportEvent::TaskFound(None));
    assert!(matches!(action, ReportAction::Finish(Err(AgentMailboxError::UnknownMessage))));
    let (_, action) = step(started(Some(TodoId(4))), ReportEvent::TaskFound(Some((LEAD, Some(TodoId(5))))));
    assert!(matches!(action, ReportAction::Finish(Err(AgentMailboxError::UnknownTodo))));
}

#[test]
fn a_recorded_completion_is_announced_sent_and_marked() {
    let mut todos = Todos::new(MemTodoRepo::new());
    let todo = todos
        .create(PROJECT, TodoDoc { title: "build".into(), body: String::new(), status: TodoStatus::Open })
        .expect("create");

    let (state, action) = step(started(Some(todo.id)), ReportEvent::TaskFound(Some((LEAD, Some(todo.id)))));
    let key = match action {
        ReportAction::Complete { project, todo: t, key } => {
            assert_eq!((project, t), (PROJECT, todo.id));
            assert_eq!(key.reporter(), WORKER);
            assert_eq!(key.task_message(), TASK);
            key
        }
        other => panic!("expected a completion, got {other:?}"),
    };
    let outcome = todos
        .report_completion(PROJECT, todo.id, key, "parser landed", author())
        .expect("recorded");
    assert_eq!(outcome.occurrence, TodoCompletionOccurrence::Recorded);

    let (state, action) = step(state, ReportEvent::Completed(Ok(outcome)));
    assert!(matches!(action, ReportAction::Announce { project: PROJECT, todo: t } if t == todo.id));
    let (state, action) = step(state, ReportEvent::Announced);
    assert!(matches!(action, ReportAction::FindPending { parent: LEAD, todo: t } if t == todo.id));
    let (state, action) = step(state, ReportEvent::PendingFound(None));
    assert!(matches!(action, ReportAction::Send { parent: LEAD, todo: Some(t) } if t == todo.id));
    let (state, action) = step(state, ReportEvent::Sent(Some("notice-1")));
    let completion = match action {
        ReportAction::MarkNotice { project: PROJECT, completion } => completion,
        other => panic!("expected a mark, got {other:?}"),
    };
    assert_eq!(completion.todo_id(), todo.id);

    // Even a refused flag write leaves the report standing.
    let (state, action) = step(state, ReportEvent::Marked);
    assert!(matches!(state, ReportState::Finished));
    match action {
        ReportAction::Finish(Ok(report)) => {
            assert_eq!(report.occurrence, Some(TodoCompletionOccurrence::Recorded));
            assert_eq!(report.notification, CompletionNotification::Enqueued { delivery: "notice-1" });
            assert_eq!(report.completion, Some(completion));
        }
        other => panic!("expected the report, got {other:?}"),
    }
}

#[test]
fn a_retry_finds_the_pending_notice_or_the_queued_flag() {
    let mut todos = Todos::new(MemTodoRepo::new());
    let todo = todos
        .create(PROJECT, TodoDoc { title: "build".into(), body: String::new(), status: TodoStatus::Open })
        .expect("create");
    let key = soloist_core::todo_completion::TodoCompletionKey::for_test(WORKER, TASK);
    let first = todos.report_completion(PROJECT, todo.id, key, "done", author()).expect("first");
    let retry = todos.report_completion(PROJECT, todo.id, key, "done", author()).expect("retry");
    assert_eq!(retry.occurrence, TodoCompletionOccurrence::Existing);

    // An existing record is not announced again; a pending notice answers the report.
    let (state, _) = step(started(Some(todo.id)), ReportEvent::TaskFound(Some((LEAD, Some(todo.id)))));
    let (state, action) = step(state, ReportEvent::Completed(Ok(retry)));
    assert!(matches!(action, ReportAction::FindPending { .. }));
    let (_, action) = step(state, ReportEvent::PendingFound(Some("notice-1")));
    assert!(matches!(
        action,
        ReportAction::Finish(Ok(ref r)) if r.notification == CompletionNotification::Pending { delivery: "notice-1" }
    ));

    // Once the flag is stored, a retry answers `AlreadyQueued` without looking or sending.
    todos.mark_completion_notice_queued(PROJECT, &first.completion).expect("mark");
    let again = todos.report_completion(PROJECT, todo.id, key, "done", author()).expect("again");
    assert_eq!(again.notice, TodoCompletionNotice::AlreadyQueued);
    let (state, _) = step(started(Some(todo.id)), ReportEvent::TaskFound(Some((LEAD, Some(todo.id)))));
    let (state, action) = step(state, ReportEvent::Completed(Ok(again)));
    assert!(matches!(state, ReportState::Finished));
    assert!(matches!(
        action,
        ReportAction::Finish(Ok(ref r)) if r.notification == CompletionNotification::AlreadyQueued
    ));
}

#[test]
fn a_report_without_a_todo_sends_and_a_refused_send_is_deferred() {
    let (state, action) = step(started(None), ReportEvent::TaskFound(Some((LEAD, None))));
    assert!(matches!(action, ReportAction::Send { parent: LEAD, todo: None }));
    let (_, action) = step(state, ReportEvent::Sent(None));
    match action {
        ReportAction::Finish(Ok(report)) => {
            assert_eq!(report.completion, None);
            assert_eq!(report.occurrence, None);
            assert_eq!(report.notification, CompletionNotification::Deferred { recipient: Some(LEAD) });
        }
        other => panic!("expected the report, got {other:?}"),
    }
}

#[test]
fn a_todo_refusal_ends_the_report_and_a_stray_event_is_ignored() {
    let (state, _) = step(started(Some(TodoId(4))), ReportEvent::TaskFound(Some((LEAD, Some(TodoId(4))))));
    let (state, action) = step(state, ReportEvent::Announced);
    assert!(matches!(action, ReportAction::Ignore));
    let (_, action) = step(state, ReportEvent::Completed(Err(AgentMailboxError::UnknownTodo)));
    assert!(matches!(action, ReportAction::Finish(Err(AgentMailboxError::UnknownTodo))));
}

#[test]
fn a_broadcast_receipt_says_woken_only_for_an_idle_recipient_whose_wake_went_through() {
    let queued = |id: u64, to: u64| AgentMessageReceipt {
        message_id: AgentMessageId(id),
        recipient: ProcessId(to),
        outcome: AgentMessageOutcome::Queued,
    };
    let receipt = broadcast_receipt(&vec![
        (queued(1, 2), true, true),
        (queued(2, 3), true, false),
        (queued(3, 4), false, true),
    ]);
    let outcomes: Vec<AgentMessageOutcome> = receipt.deliveries.iter().map(|d| d.outcome).collect();
    assert_eq!(
        outcomes,
        vec![AgentMessageOutcome::WakeSubmitted, AgentMessageOutcome::Queued, AgentMessageOutcome::Queued]
    );
    assert_eq!(receipt.deliveries[1].recipient, ProcessId(3));
    assert_eq!(receipt.deliveries[2].message_id, AgentMessageId(3));
}

#[test]
fn the_effective_project_is_the_selection_then_the_bound_process_then_the_sole_project() {
    let one = ProjectId(1);
    let two = ProjectId(2);
    assert_eq!(effective_project(Some(one), Some(two), &vec![two]), Some(one));
    assert_eq!(effective_project(None, Some(two), &vec![one]), Some(two));
    assert_eq!(effective_project(None, None, &vec![one]), Some(one));
    assert_eq!(effective_project(None, None, &vec![one, two]), None);
    assert_eq!(effective_project(None, None, &vec![]), None);
}
