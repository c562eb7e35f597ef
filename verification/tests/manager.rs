use prism::manager::{ClaudeManager, SessionError};
use prism::protocol::FrontendEvent;
use prism::pump::pump_output;

#[test]
fn send_on_unknown_session_fails() {
    let m = ClaudeManager::new();
    assert_eq!(
        m.send_message("t1", "hello").unwrap_err(),
        SessionError::UnknownSession
    );
}

#[test]
fn approve_on_unknown_session_fails() {
    let m = ClaudeManager::new();
    assert_eq!(
        m.approve_permission("t1", "tool", true).unwrap_err(),
        SessionError::UnknownSession
    );
}

#[test]
fn stop_on_unknown_session_is_a_noop() {
    let mut m = ClaudeManager::new();
    assert_eq!(m.stop_thread("nobody"), None);
}

#[test]
fn send_writes_one_terminated_line() {
    let mut m = ClaudeManager::new();
    let h = m.start_thread("t1", "/tmp/proj");
    let action = m.send_message("t1", "hello").unwrap();
    assert_eq!(action.handle, h);
    assert_eq!(action.payload, "hello\n");
}

#[test]
fn approve_writes_a_single_token_line() {
    let mut m = ClaudeManager::new();
    let h = m.start_thread("t1", "/tmp/proj");
    let yes = m.approve_permission("t1", "tool-3", true).unwrap();
    assert_eq!(yes.handle, h);
    assert_eq!(yes.payload, "y\n");
    let no = m.approve_permission("t1", "tool-3", false).unwrap();
    assert_eq!(no.handle, h);
    assert_eq!(no.payload, "n\n");
}

#[test]
fn distinct_sessions_use_distinct_handles() {
    let mut m = ClaudeManager::new();
    let h1 = m.start_thread("t1", "/tmp/a");
    let h2 = m.start_thread("t2", "/tmp/b");
    assert_ne!(h1, h2);
    let a1 = m.send_message("t1", "one").unwrap();
    let a2 = m.send_message("t2", "two").unwrap();
    assert_eq!(a1.handle, h1);
    assert_eq!(a2.handle, h2);
}

#[test]
fn stopping_one_session_leaves_the_other() {
    let mut m = ClaudeManager::new();
    let h1 = m.start_thread("t1", "/tmp/a");
    let h2 = m.start_thread("t2", "/tmp/b");
    assert_eq!(m.stop_thread("t1"), Some(h1));
    assert_eq!(
        m.send_message("t1", "gone").unwrap_err(),
        SessionError::UnknownSession
    );
    let a2 = m.send_message("t2", "still").unwrap();
    assert_eq!(a2.handle, h2);
}

#[test]
fn restarting_an_identity_replaces_its_session() {
    let mut m = ClaudeManager::new();
    let h1 = m.start_thread("t1", "/tmp/a");
    let h2 = m.start_thread("t1", "/tmp/b");
    assert_ne!(h1, h2);
    let action = m.send_message("t1", "hi").unwrap();
    assert_eq!(action.handle, h2);
    assert_eq!(m.stop_thread("t1"), Some(h2));
    assert_eq!(m.stop_thread("t1"), None);
}

#[test]
fn end_to_end_session_lifecycle() {
    let mut m = ClaudeManager::new();
    let h = m.start_thread("t1", "/tmp/proj");

    let action = m.send_message("t1", "hello").unwrap();
    assert_eq!(action.handle, h);
    assert_eq!(action.payload.as_bytes(), b"hello\n");

    let lines = vec!["{\"type\":\"message_stop\"}".to_string()];
    let delivered = pump_output(&"t1".to_string(), &lines);
    assert_eq!(delivered.len(), 2);
    assert_eq!(delivered[0].thread_id, "t1");
    assert_eq!(delivered[0].event, FrontendEvent::MessageStop);
    assert_eq!(delivered[1].thread_id, "t1");
    assert_eq!(delivered[1].event, FrontendEvent::ProcessExit { code: 0 });

    assert_eq!(m.stop_thread("t1"), Some(h));
    assert_eq!(
        m.send_message("t1", "after").unwrap_err(),
        SessionError::UnknownSession
    );
}
