use task_executor::monitor::{create_update, headers_complete, parse_request, TaskEvent, TaskExec};

#[test]
fn update_stamps_events_in_order() {
    let exec = vec![
        (TaskExec::Polling(7), 100u128),
        (TaskExec::PollPending(7), 130u128),
        (TaskExec::Polling(8), 150u128),
        (TaskExec::PollReady(8), 160u128),
    ];
    let update = create_update(Vec::new(), exec, 500);
    assert_eq!(update.current_time, 500);
    assert!(update.new_tasks.is_empty());
    assert_eq!(update.task_events.len(), 4);
    assert!(matches!(update.task_events[0], TaskEvent::Polling { id: 7, timestamp: 100 }));
    assert!(matches!(update.task_events[1], TaskEvent::PollPending { id: 7, timestamp: 130 }));
    assert!(matches!(update.task_events[2], TaskEvent::Polling { id: 8, timestamp: 150 }));
    assert!(matches!(update.task_events[3], TaskEvent::PollReady { id: 8, timestamp: 160 }));
}

#[test]
fn request_path_is_extracted() {
    let req = b"GET /update.json HTTP/1.1\r\nHost: localhost\r\n\r\n".to_vec();
    let (path, action) = parse_request(&req).expect("well-formed request");
    assert_eq!(path, b"/update.json".to_vec());
    assert!(action.is_none());
}

#[test]
fn action_header_is_extracted() {
    let req = b"GET /action HTTP/1.1\r\nAction: pause\r\nHost: x\r\n\r\n".to_vec();
    let (path, action) = parse_request(&req).expect("well-formed request");
    assert_eq!(path, b"/action".to_vec());
    assert_eq!(action, Some(b"pause".to_vec()));
}

#[test]
fn non_get_request_is_rejected() {
    let req = b"POST /update.json HTTP/1.1\r\n\r\n".to_vec();
    assert!(parse_request(&req).is_none());
}

#[test]
fn missing_version_separator_is_rejected() {
    let req = b"GET /update.json\r\n\r\n".to_vec();
    assert!(parse_request(&req).is_none());
}

#[test]
fn unterminated_action_header_is_rejected() {
    let req = b"GET / HTTP/1.1\r\nAction: stop".to_vec();
    assert!(parse_request(&req).is_none());
}

#[test]
fn header_block_completion_is_detected() {
    let partial = b"GET / HTTP/1.1\r\nHost: x\r\n".to_vec();
    assert!(!headers_complete(&partial));
    let full = b"GET / HTTP/1.1\r\nHost: x\r\n\r\n".to_vec();
    assert!(headers_complete(&full));
    assert!(!headers_complete(&b"".to_vec()));
}
