use ncpages::push::{http_base, is_file_event, self_test_url, Backoff, PushAction, PushSession, FILE_EVENTS};

#[test]
fn websocket_urls_map_to_their_http_origin() {
    assert_eq!(http_base("ws://notify-push:7867/ws"), "http://notify-push:7867");
    assert_eq!(http_base("wss://cloud.example.org/push/ws"), "https://cloud.example.org/push");
}

#[test]
fn only_file_events_are_treated_as_changes() {
    assert!(FILE_EVENTS.contains(&"notify_file"));
    assert!(!FILE_EVENTS.contains(&"notify_notification"));
    assert!(!FILE_EVENTS.contains(&"authenticated"));
}

#[test]
fn file_events_are_recognised_by_name() {
    assert!(is_file_event("notify_file"));
    assert!(is_file_event("notify_storage_update"));
    assert!(!is_file_event("notify_activity"));
}

#[test]
fn the_self_test_lives_below_the_http_base() {
    assert_eq!(self_test_url("http://notify-push:7867/"), "http://notify-push:7867/test/cookie");
}

#[test]
fn a_session_authenticates_then_wakes_on_file_events() {
    let mut s = PushSession::new();
    assert_eq!(s.on_text(" authenticated\n"), PushAction::Authenticated);
    assert!(s.authenticated);
    assert_eq!(s.on_text("notify_file"), PushAction::Wake);
    assert_eq!(s.on_text("notify_notification"), PushAction::Ignore);
}

#[test]
fn refused_credentials_end_the_session() {
    let mut s = PushSession::new();
    assert_eq!(
        s.on_text("err: Invalid credentials"),
        PushAction::Refused("notify_push refused the credentials: err: Invalid credentials".into())
    );
    assert!(!s.authenticated);
}

#[test]
fn reconnects_back_off_to_a_minute_and_reset_after_a_clean_close() {
    let mut b = Backoff::new();
    let waits: Vec<u64> = (0..8).map(|_| b.after_session(false)).collect();
    assert_eq!(waits, vec![1, 2, 4, 8, 16, 32, 60, 60]);
    assert_eq!(b.after_session(true), 1);
    assert_eq!(b.after_session(false), 2);
}
