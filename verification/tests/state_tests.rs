use rtkill::list::visible_window;
use rtkill::list::ListWithState;
use rtkill::message::Message;
use rtkill::message::MessageAction;
use rtkill::message::MessageType;
use rtkill::record::DeleteError;
use rtkill::record::TargetDir;
use rtkill::state::AppState;
use rtkill::state::ArgOutcome;
use rtkill::state::DeleteRequest;

fn record(name: &str, path: &str, size_bytes: u64) -> TargetDir {
    TargetDir {
        path: path.to_string(),
        project_name: name.to_string(),
        last_modified: "01/01/2024".to_string(),
        is_deleted: false,
        size: "1.0 KiB".to_string(),
        size_bytes,
    }
}

#[test]
fn test_navigation_wraps() {
    let mut list: ListWithState<String> = ListWithState::new();
    // empty list: both are no-ops
    list.next();
    list.previous();
    assert_eq!(list.index, 0);

    list.datas.push("a".to_string());
    // a single item: both are no-ops
    list.next();
    assert_eq!(list.index, 0);
    list.previous();
    assert_eq!(list.index, 0);

    list.datas.push("b".to_string());
    list.datas.push("c".to_string());
    // prev from 0 wraps to the end
    list.previous();
    assert_eq!(list.index, 2);
    // next from the end wraps to 0
    list.next();
    assert_eq!(list.index, 0);
    list.next();
    assert_eq!(list.index, 1);
    assert_eq!(list.current(), "b");
}

#[test]
fn test_visible_window_pages() {
    assert_eq!(visible_window(0, 10, 3), (0, 3));
    assert_eq!(visible_window(2, 10, 3), (0, 3));
    assert_eq!(visible_window(9, 10, 35), (0, 10));
    assert_eq!(visible_window(10, 10, 35), (10, 20));
    assert_eq!(visible_window(34, 10, 35), (30, 35));
}

#[test]
fn test_message_expiry_clock() {
    let m = Message::new("hi", MessageType::Info, None, None, 1000);
    assert!(!m.should_be_deleted(1000));
    assert!(!m.should_be_deleted(5999));
    assert!(m.should_be_deleted(6000));

    let quick = Message::new("bye", MessageType::Success, Some(3000), None, 0);
    assert!(!quick.should_be_deleted(2999));
    assert!(quick.should_be_deleted(3000));
}

#[test]
fn test_startup_valid_argument() {
    let s = AppState::new(ArgOutcome::Dir("/scope".to_string()), Some("/cwd".to_string()), 0);
    assert_eq!(s.root_dir.as_deref(), Some("/scope"));
    assert!(s.message.is_none());
    assert_eq!(s.total_size, "0B");
    assert!(!s.searching);
}

#[test]
fn test_startup_no_args_falls_back_silently() {
    let s = AppState::new(ArgOutcome::NoArgs, Some("/cwd".to_string()), 0);
    assert_eq!(s.root_dir.as_deref(), Some("/cwd"));
    assert!(s.message.is_none());
}

#[test]
fn test_startup_bad_dir_warns() {
    let s = AppState::new(ArgOutcome::BadDir, Some("/cwd".to_string()), 0);
    assert_eq!(s.root_dir.as_deref(), Some("/cwd"));
    let m = s.message.expect("fallback warning expected");
    assert_eq!(
        m.msg_text,
        "The provided root directory isn't valid. Current directory has been loaded instead."
    );
    assert!(matches!(m.msg_type, MessageType::Warning));
}

#[test]
fn test_startup_fatal_quits_on_expiry() {
    let s = AppState::new(ArgOutcome::BadDir, None, 50);
    assert!(s.root_dir.is_none());
    let m = s.message.expect("fatal error expected");
    assert_eq!(
        m.msg_text,
        "The provided root directory isn't valid. App will automatically quit in 10s."
    );
    assert!(matches!(m.msg_type, MessageType::Error));
    assert_eq!(m.duration_ms, 10_000);
    assert!(matches!(m.action_when_deleted, Some(MessageAction::Quit)));
}

#[test]
fn test_delete_flow() {
    let mut s = AppState::new(ArgOutcome::Dir("/r".to_string()), None, 0);
    s.push_record(record("foo", "/r/p/target", 1024));

    // first press: a removal is requested for the record's path
    match s.delete_request() {
        DeleteRequest::Attempt(p) => assert_eq!(p, "/r/p/target"),
        _ => panic!("a removal attempt was expected"),
    }

    // the removal succeeded
    s.delete_current(Ok(()), 500);
    assert!(s.target_directories.datas[0].is_deleted);
    let m = s.message.take().expect("success notice expected");
    assert_eq!(m.msg_text, "Successfully deleted folder");
    assert!(matches!(m.msg_type, MessageType::Success));
    assert_eq!(m.duration_ms, 3000);
    assert_eq!(m.created_at_ms, 500);

    // second press: the record rejects another deletion
    assert!(matches!(s.delete_request(), DeleteRequest::AlreadyDeleted));
    s.delete_current(Err("folder already deleted".to_string()), 900);
    assert!(s.target_directories.datas[0].is_deleted);
    let m = s.message.take().expect("failure notice expected");
    assert_eq!(m.msg_text, "Failed to delete folder, try again...");
    assert!(matches!(m.msg_type, MessageType::Error));
}

#[test]
fn test_delete_failure_keeps_record() {
    let mut s = AppState::new(ArgOutcome::Dir("/r".to_string()), None, 0);
    s.push_record(record("foo", "/r/p/target", 1024));
    s.delete_current(Err("permission denied".to_string()), 100);
    assert!(!s.target_directories.datas[0].is_deleted);
    let m = s.message.expect("failure notice expected");
    assert_eq!(m.msg_text, "Failed to delete folder, try again...");
}

#[test]
fn test_record_rejects_second_delete() {
    let mut rec = record("foo", "/r/p/target", 1024);
    assert!(rec.delete(Ok(())).is_ok());
    assert!(rec.is_deleted);
    match rec.delete(Ok(())) {
        Err(DeleteError::AlreadyDeleted) => {}
        _ => panic!("a deleted record must reject further deletions"),
    }
    assert!(rec.is_deleted);
}

#[test]
fn test_delete_error_reason_is_kept() {
    let mut rec = record("foo", "/r/p/target", 1024);
    match rec.delete(Err("disk on fire".to_string())) {
        Err(DeleteError::DeleteFailed(why)) => assert_eq!(why, "disk on fire"),
        _ => panic!("the failure reason must come back"),
    }
    assert!(!rec.is_deleted);
}

#[test]
fn test_expire_message_clears_or_quits() {
    let mut s = AppState::new(ArgOutcome::Dir("/r".to_string()), None, 0);
    s.set_message(Some(Message::new("hello", MessageType::Info, None, None, 0)));
    assert!(!s.expire_message(100));
    assert!(s.message.is_some(), "a current message stays");
    assert!(!s.expire_message(5000));
    assert!(s.message.is_none(), "an expired message is cleared");

    let mut fatal = AppState::new(ArgOutcome::BadDir, None, 0);
    assert!(!fatal.expire_message(9_999));
    assert!(fatal.expire_message(10_000), "expiry of the fatal notice quits");
    assert!(fatal.message.is_some(), "the notice stays up while quitting");
}
