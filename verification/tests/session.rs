use mcenroe::icmp::EchoRequest;
use mcenroe::session::bytes_equal;
use mcenroe::session::PingSession;
use mcenroe::session::PollEvent;
use mcenroe::session::SessionError;
use mcenroe::session::SessionState;
use mcenroe::session::ECHO_REQUEST_BUFFER_SIZE;
use mcenroe::session::TOKEN_SIZE;

fn token_of(fill: u8) -> Vec<u8> {
    vec![fill; TOKEN_SIZE]
}

fn reply_with_token(token: &[u8]) -> Vec<u8> {
    let mut bytes = vec![0u8; 8];
    bytes.extend_from_slice(token);
    bytes
}

fn polling_session(token: Vec<u8>, timeout_ms: u64) -> PingSession {
    let mut session = PingSession::with_token(token, timeout_ms);
    session.start().unwrap();
    session.begin_polling();
    session
}

#[test]
fn bytes_equal_cases() {
    assert!(bytes_equal(&[1, 2, 3], &[1, 2, 3]));
    assert!(!bytes_equal(&[1, 2, 3], &[1, 2]));
    assert!(!bytes_equal(&[1, 2, 3], &[1, 2, 4]));
    assert!(bytes_equal(&[], &[]));
}

#[test]
fn new_session_has_fixed_length_token() {
    let session = PingSession::new(300);
    assert_eq!(session.token.len(), TOKEN_SIZE);
    assert_eq!(session.state, SessionState::Idle);
    assert_eq!(session.timeout_ms, 300);
}

#[test]
fn start_encodes_the_token() {
    let token = token_of(0x5A);
    let mut session = PingSession::with_token(token.clone(), 300);
    let request = session.start().unwrap();
    assert_eq!(session.state, SessionState::Sent);
    let mut expected = [0u8; ECHO_REQUEST_BUFFER_SIZE];
    let direct = EchoRequest { ident: 1, seq_cnt: 1, payload: &token };
    assert!(direct.encode(&mut expected).is_ok());
    assert_eq!(request.as_slice(), &expected);
}

#[test]
fn matching_reply_succeeds() {
    let token = token_of(0x11);
    let mut session = polling_session(token.clone(), 300);
    let done = session.on_poll_event(PollEvent::Received(reply_with_token(&token)), 50);
    assert!(matches!(done, Some(Ok(()))));
    assert_eq!(session.state, SessionState::Matched);
}

#[test]
fn own_request_echoed_back_succeeds() {
    let token = token_of(0x42);
    let mut session = PingSession::with_token(token, 300);
    let mut echoed = session.start().unwrap();
    session.begin_polling();
    echoed[0] = 0;
    echoed[1] = 0;
    let done = session.on_poll_event(PollEvent::Received(echoed), 10);
    assert!(matches!(done, Some(Ok(()))));
}

#[test]
fn unrelated_reply_keeps_polling() {
    let token = token_of(0x11);
    let mut session = polling_session(token, 300);
    let other = token_of(0x22);
    let done = session.on_poll_event(PollEvent::Received(reply_with_token(&other)), 50);
    assert!(done.is_none());
    assert_eq!(session.state, SessionState::Polling);
}

#[test]
fn undecodable_traffic_keeps_polling() {
    let token = token_of(0x11);
    let mut session = polling_session(token, 300);
    let done = session.on_poll_event(PollEvent::Received(vec![8, 0, 0]), 50);
    assert!(done.is_none());
    let done = session.on_poll_event(PollEvent::Received(vec![]), 60);
    assert!(done.is_none());
    assert_eq!(session.state, SessionState::Polling);
}

#[test]
fn unrelated_traffic_then_match_still_succeeds() {
    let token = token_of(0x33);
    let mut session = polling_session(token.clone(), 300);
    for fill in [0x01u8, 0x02, 0x03] {
        let other = token_of(fill);
        let done = session.on_poll_event(PollEvent::Received(reply_with_token(&other)), 50);
        assert!(done.is_none());
    }
    let done = session.on_poll_event(PollEvent::Received(reply_with_token(&token)), 99);
    assert!(matches!(done, Some(Ok(()))));
    assert_eq!(session.state, SessionState::Matched);
}

#[test]
fn longer_payload_with_matching_prefix_does_not_match() {
    let token = token_of(0x11);
    let mut session = polling_session(token.clone(), 300);
    let mut longer = token;
    longer.push(0x11);
    let done = session.on_poll_event(PollEvent::Received(reply_with_token(&longer)), 50);
    assert!(done.is_none());
    assert_eq!(session.state, SessionState::Polling);
}

#[test]
fn deadline_times_the_session_out() {
    let token = token_of(0x11);
    let mut session = polling_session(token, 300);
    let done = session.on_poll_event(PollEvent::ReadTimedOut, 299);
    assert!(done.is_none());
    let done = session.on_poll_event(PollEvent::ReadTimedOut, 300);
    assert!(matches!(done, Some(Err(SessionError::Timeout))));
    assert_eq!(session.state, SessionState::TimedOut);
}

#[test]
fn nonmatching_reply_past_deadline_times_out() {
    let token = token_of(0x11);
    let mut session = polling_session(token, 300);
    let other = token_of(0x44);
    let done = session.on_poll_event(PollEvent::Received(reply_with_token(&other)), 301);
    assert!(matches!(done, Some(Err(SessionError::Timeout))));
}

#[test]
fn read_failure_is_a_transport_error() {
    let token = token_of(0x11);
    let mut session = polling_session(token, 300);
    let done = session.on_poll_event(PollEvent::ReadFailed(String::from("connection refused")), 10);
    match done {
        Some(Err(SessionError::Transport(message))) => {
            assert_eq!(message, "connection refused");
        }
        other => panic!("expected a transport error, got {other:?}"),
    }
    assert_eq!(session.state, SessionState::TransportFailed);
}
