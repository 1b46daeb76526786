use tcio::io_task::{poll_step, OpRequest, PendingOp, PollStep};
use tcio::io::{write_progress, BufCursor, WriteProgress};
use tcio::io_task::{
    IoTask, ReadAction, TaskReadMessage, TaskSyncMessage, TaskTxMessage, WriteError,
    READ_CAPACITY,
};
use tcio::sync::recall::{self, DropAction};

type Task = IoTask<&'static str, Vec<u8>, String>;
type Msg = TaskTxMessage<&'static str, Vec<u8>, u32>;

#[test]
fn io_task_answers_reads_in_order() {
    let mut task = Task::new();
    assert!(task.take_ready(10).is_none());
    assert!(task.read_plan(0, 0).is_none());

    assert!(task.handle_message(Msg::Read { cap: Some(4), tx: "exact" }).is_none());
    assert!(task.handle_message(Msg::Read { cap: None, tx: "any" }).is_none());

    // room is made when the buffer runs low
    assert_eq!(task.read_plan(0, 0), Some(READ_CAPACITY));
    assert_eq!(task.read_plan(0x100, 0), Some(0));
    assert_eq!(task.read_plan(0x10, 0x400), Some(0));

    // three bytes are not enough for the exact read
    assert!(task.take_ready(3).is_none());
    assert_eq!(task.take_ready(6), Some(("exact", 4)));
    // the remaining two answer the next request
    assert_eq!(task.take_ready(2), Some(("any", 2)));
    assert!(task.take_ready(0).is_none());
}

#[test]
fn io_task_sync_reports_writes() {
    let mut task = Task::new();
    assert!(matches!(
        task.handle_message(Msg::Sync { tx: 1 }),
        Some((1, TaskSyncMessage::Complete))
    ));
    assert!(task.handle_message(Msg::Write { bytes: b"abc".to_vec() }).is_none());
    assert!(matches!(
        task.handle_message(Msg::Sync { tx: 2 }),
        Some((2, TaskSyncMessage::Pending))
    ));

    let bytes = task.take_write().unwrap();
    assert_eq!(bytes, b"abc");
    assert!(task.take_write().is_none());
    task.restore_write(bytes);
    assert_eq!(task.take_write().unwrap(), b"abc");
    task.handle_write(Err(WriteError { error: "broken pipe".to_string(), aborted: false }));

    // the error is reported once
    match task.handle_message(Msg::Sync { tx: 3 }) {
        Some((3, TaskSyncMessage::Failed(err))) => assert_eq!(err, "broken pipe"),
        _ => panic!("the write error is reported"),
    }
    assert!(matches!(
        task.handle_message(Msg::Sync { tx: 4 }),
        Some((4, TaskSyncMessage::Complete))
    ));
    assert!(!task.is_terminating());
}

#[test]
fn io_task_terminates_at_end_of_stream() {
    let mut task = Task::new();
    task.handle_message(Msg::Read { cap: None, tx: "a" });
    task.handle_message(Msg::Read { cap: Some(3), tx: "b" });
    task.handle_message(Msg::Write { bytes: vec![1] });

    assert!(matches!(task.handle_read(Ok(5), "aborted".to_string()), ReadAction::Continue));
    match task.handle_read(Ok(0), "aborted".to_string()) {
        ReadAction::Terminated(txs) => assert_eq!(txs, vec!["a", "b"]),
        _ => panic!("the end of the stream terminates the task"),
    }
    assert!(task.is_terminating());
    assert!(task.read_plan(0, 0).is_none());
    // pending writes keep the task alive
    assert!(!task.can_terminate());
    task.take_write();
    assert!(task.can_terminate());
}

#[test]
fn io_task_read_error_answers_first_request() {
    let mut task = Task::new();
    task.handle_message(Msg::Read { cap: None, tx: "first" });
    task.handle_message(Msg::Read { cap: None, tx: "second" });
    match task.handle_read(Err("reset".to_string()), "aborted".to_string()) {
        ReadAction::Failed(Some("first"), err) => assert_eq!(err, "reset"),
        _ => panic!("the first request gets the error"),
    }
    assert_eq!(task.take_ready(1), Some(("second", 1)));
    match task.handle_read(Err("reset".to_string()), "aborted".to_string()) {
        ReadAction::Failed(None, _) => {}
        _ => panic!("no request waits"),
    }
    let data: TaskReadMessage<Vec<u8>, String> = TaskReadMessage::Data(vec![]);
    assert!(matches!(data, TaskReadMessage::Data(_)));
}

#[test]
fn io_task_terminate_refuses_reads() {
    let mut task = Task::new();
    task.handle_message(Msg::Read { cap: Some(1), tx: "r" });
    assert_eq!(task.terminate("aborted".to_string()), vec!["r"]);
    assert!(task.is_terminating());
    assert!(task.take_ready(10).is_none());
    match task.handle_message(Msg::Sync { tx: 7 }) {
        Some((7, TaskSyncMessage::Failed(err))) => assert_eq!(err, "aborted"),
        _ => panic!("the abort is reported"),
    }
}

#[test]
fn buf_cursor_hands_out_buffered_bytes() {
    let mut cursor = BufCursor::new(());
    assert_eq!(cursor.try_get(2, 3), None);
    assert_eq!(cursor.try_get(5, 3), Some(0..3));
    assert_eq!(cursor.try_get(5, 3), None);
    assert_eq!(cursor.try_get(9, 3), Some(3..6));
    cursor.consume(1);
    assert_eq!(cursor.read(), 7);
    assert_eq!(cursor.commit(), 7);
    assert_eq!(cursor.read(), 0);
}

#[test]
fn write_progress_decides() {
    assert_eq!(write_progress(5, 0), WriteProgress::WriteZero);
    assert_eq!(write_progress(5, 2), WriteProgress::Again);
    assert_eq!(write_progress(5, 5), WriteProgress::Done);
}

#[test]
fn recall_states() {
    let state = recall::initial_state();
    assert!(recall::is_unique(state));
    assert!(recall::lend_granted(state));
    let lent = state | recall::IS_AGENT;
    assert_eq!(lent, recall::LENT);
    assert!(!recall::lend_granted(lent));
    assert!(!recall::is_unique(lent));
    // the agent dropped first keeps the value, the recall then frees it
    assert_eq!(recall::drop_agent(lent), DropAction::Keep);
    assert_eq!(recall::drop_recall(recall::IS_RECALL), DropAction::Free);
    // the recall dropped first keeps the value, the agent then frees it
    assert_eq!(recall::drop_recall(lent), DropAction::Keep);
    assert_eq!(recall::drop_agent(recall::DROPPED), DropAction::Free);
    assert_eq!(recall::drop_agent(recall::IS_RECALL), DropAction::Invalid);
    assert_eq!(recall::drop_recall(recall::DROPPED), DropAction::Invalid);
}

#[test]
fn polled_handle_steps() {
    assert_eq!(poll_step(PendingOp::Idle, OpRequest::Read), PollStep::Send);
    assert_eq!(poll_step(PendingOp::Idle, OpRequest::Sync), PollStep::Send);
    assert_eq!(poll_step(PendingOp::Read, OpRequest::Read), PollStep::Await);
    assert_eq!(poll_step(PendingOp::Read, OpRequest::Sync), PollStep::Busy);
    assert_eq!(poll_step(PendingOp::Sync, OpRequest::Sync), PollStep::Await);
    assert_eq!(poll_step(PendingOp::Sync, OpRequest::Read), PollStep::Busy);
}
