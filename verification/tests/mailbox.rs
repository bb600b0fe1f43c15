//! The decisions of completion reporting and direct messaging.

use soloist_core::ids::{AgentMessageId, ProcessId, TodoId};
use soloist_core::mailbox::{
    check_message_size, check_recipient, check_task_todo, completion_error, completion_report,
    notification_after_send, notification_before_send, AgentMailboxError,
    CompletionNotification,
};
use soloist_core::todo::TodoError;
use soloist_core::todo_completion::TodoCompletionNotice;
use soloist_core::todo_repo::StoreError;

#[test]
fn an_oversized_message_is_refused_and_one_at_the_cap_passes() {
    assert!(check_message_size(10, 10).is_ok());
    assert!(matches!(
        check_message_size(11, 10),
        Err(AgentMailboxError::MessageTooLarge)
    ));
}

#[test]
fn a_report_must_name_the_todo_its_task_carries() {
    assert!(check_task_todo(Some(TodoId(3)), Some(TodoId(3))).is_ok());
    assert!(check_task_todo(None, None).is_ok());
    assert!(matches!(
        check_task_todo(Some(TodoId(3)), None),
        Err(AgentMailboxError::UnknownTodo)
    ));
    assert!(matches!(
        check_task_todo(None, Some(TodoId(3))),
        Err(AgentMailboxError::UnknownTodo)
    ));
}

#[test]
fn a_recipient_off_the_roster_is_unrelated_or_unknown() {
    assert!(check_recipient(true, true).is_ok());
    assert!(matches!(
        check_recipient(false, true),
        Err(AgentMailboxError::UnrelatedRecipient)
    ));
    assert!(matches!(
        check_recipient(false, false),
        Err(AgentMailboxError::UnknownRecipient)
    ));
}

#[test]
fn todo_refusals_read_as_mailbox_refusals() {
    assert!(matches!(
        completion_error(TodoError::NotFound, "no todo under that id".into()),
        AgentMailboxError::UnknownTodo
    ));
    match completion_error(TodoError::Blocked { by: vec![TodoId(4)] }, String::new()) {
        AgentMailboxError::TodoBlocked { by } => assert_eq!(by, vec![TodoId(4)]),
        other => panic!("unexpected {other:?}"),
    }
    match completion_error(TodoError::Store(StoreError::Backend("disk".into())), String::new()) {
        AgentMailboxError::Store(StoreError::Backend(m)) => assert_eq!(m, "disk"),
        other => panic!("unexpected {other:?}"),
    }
    match completion_error(TodoError::CompletionConflict, "claimed".into()) {
        AgentMailboxError::Store(StoreError::Backend(m)) => assert_eq!(m, "claimed"),
        other => panic!("unexpected {other:?}"),
    }
}

#[test]
fn an_already_queued_notice_is_not_sent_again() {
    let n = notification_before_send(
        Some(TodoCompletionNotice::AlreadyQueued),
        Some(AgentMessageId(9)),
    );
    assert_eq!(n, Some(CompletionNotification::AlreadyQueued));
}

#[test]
fn a_pending_notice_is_reported_rather_than_sent() {
    let n = notification_before_send(Some(TodoCompletionNotice::Required), Some(AgentMessageId(9)));
    assert_eq!(
        n,
        Some(CompletionNotification::Pending {
            delivery: AgentMessageId(9)
        })
    );
    assert_eq!(
        notification_before_send::<AgentMessageId>(None, None),
        None,
        "with nothing pending the notice is sent"
    );
}

#[test]
fn a_refused_send_defers_the_notice_to_the_parent() {
    assert_eq!(
        notification_after_send(Some(AgentMessageId(2)), ProcessId(1)),
        CompletionNotification::Enqueued {
            delivery: AgentMessageId(2)
        }
    );
    assert_eq!(
        notification_after_send::<AgentMessageId>(None, ProcessId(1)),
        CompletionNotification::Deferred {
            recipient: Some(ProcessId(1))
        }
    );
}

#[test]
fn a_report_without_a_todo_carries_no_record() {
    let report = completion_report::<AgentMessageId>(None, CompletionNotification::AlreadyQueued);
    assert!(report.completion.is_none());
    assert!(report.occurrence.is_none());
    assert_eq!(report.notification, CompletionNotification::AlreadyQueued);
}
