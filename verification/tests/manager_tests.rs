use termchat::bridge::EventQueue;
use termchat::manager::{BridgeEvent, ConnectionManager, ConnectionState, RejectedCommand};

fn live_manager() -> (ConnectionManager, EventQueue<BridgeEvent>) {
    let mut mgr = ConnectionManager::new();
    let mut bridge: EventQueue<BridgeEvent> = EventQueue::new();
    mgr.connect("alice", "general", "pw").expect("connect accepted");
    mgr.transport_opened().expect("join frame");
    let epoch = mgr.epoch;
    mgr.handle_frame(epoch, r#"{"type":"join","username":"alice"}"#, &mut bridge);
    assert_eq!(mgr.state, ConnectionState::Live);
    bridge.drain();
    (mgr, bridge)
}

#[test]
fn connect_with_reserved_username_is_rejected_without_transport() {
    let mut mgr = ConnectionManager::new();
    let r = mgr.connect(" Server ", "general", "pw");
    assert!(matches!(r, Err(RejectedCommand::ReservedUsername)));
    // No transport attempt follows a rejection: the manager never left
    // Idle and hands out no join frame.
    assert_eq!(mgr.state, ConnectionState::Idle);
    assert!(mgr.transport_opened().is_err());
}

#[test]
fn connect_defaults_blank_fields() {
    let mut mgr = ConnectionManager::new();
    let s = mgr.connect("", "   ", "").expect("accepted");
    assert_eq!(s.username, "guest");
    assert_eq!(s.chat_room_name, "general");
    assert_eq!(s.password, "default");
}

#[test]
fn connect_defaults_unicode_whitespace_username() {
    // A username of nothing but whitespace — including non-ASCII
    // whitespace — is blank and falls back to the default.
    let mut mgr = ConnectionManager::new();
    let s = mgr.connect("\u{a0}\u{2003}", "general", "pw").expect("accepted");
    assert_eq!(s.username, "guest");
}

#[test]
fn connect_with_unicode_padded_reserved_name_is_rejected() {
    let mut mgr = ConnectionManager::new();
    let r = mgr.connect("\u{a0}Server\u{a0}", "general", "pw");
    assert!(matches!(r, Err(RejectedCommand::ReservedUsername)));
}

#[test]
fn connect_while_live_is_rejected_and_connection_unaffected() {
    let (mut mgr, mut bridge) = live_manager();
    let epoch_before = mgr.epoch;
    let r = mgr.connect("bob", "general", "pw");
    assert!(matches!(r, Err(RejectedCommand::AlreadyConnected)));
    assert_eq!(mgr.state, ConnectionState::Live);
    assert_eq!(mgr.epoch, epoch_before);
    // No event was emitted on either side.
    assert_eq!(bridge.len(), 0);
    // The live connection still works.
    let epoch = mgr.epoch;
    mgr.handle_frame(epoch, r#"{"type":"chatclear"}"#, &mut bridge);
    assert_eq!(bridge.try_recv(), Some(BridgeEvent::ChatCleared));
}

#[test]
fn transport_opened_hands_back_the_single_join_frame() {
    let mut mgr = ConnectionManager::new();
    mgr.connect("alice", "lobby", "hunter2").expect("accepted");
    assert_eq!(mgr.state, ConnectionState::Connecting);
    let frame = mgr.transport_opened().expect("join frame");
    assert_eq!(
        frame,
        r#"{"type":"join","username":"alice","chatname":"lobby","password":"hunter2"}"#
    );
    assert_eq!(mgr.state, ConnectionState::Joining);
    // Only the one: the join frame is sent exactly once per connection.
    assert!(mgr.transport_opened().is_err());
}

#[test]
fn first_event_confirms_the_connection() {
    let mut mgr = ConnectionManager::new();
    let mut bridge: EventQueue<BridgeEvent> = EventQueue::new();
    mgr.connect("alice", "general", "pw").expect("accepted");
    mgr.transport_opened().expect("join frame");
    assert_eq!(mgr.state, ConnectionState::Joining);
    let epoch = mgr.epoch;
    mgr.handle_frame(epoch, r#"{"type":"join","username":"alice"}"#, &mut bridge);
    assert_eq!(mgr.state, ConnectionState::Live);
    assert_eq!(bridge.try_recv(), Some(BridgeEvent::Connected));
    assert_eq!(
        bridge.try_recv(),
        Some(BridgeEvent::UserJoined { username: "alice".to_string() })
    );
    assert_eq!(bridge.try_recv(), None);
}

#[test]
fn inbound_frames_are_delivered_in_order() {
    let (mut mgr, mut bridge) = live_manager();
    let epoch = mgr.epoch;
    mgr.handle_frame(epoch, r#"{"type":"join","username":"alice"}"#, &mut bridge);
    mgr.handle_frame(
        epoch,
        r#"{"type":"message","username":"alice","content":"hi"}"#,
        &mut bridge,
    );
    mgr.handle_frame(epoch, r#"{"type":"leave","username":"alice"}"#, &mut bridge);
    let events = bridge.drain();
    assert_eq!(
        events,
        vec![
            BridgeEvent::UserJoined { username: "alice".to_string() },
            BridgeEvent::ChatMessage {
                username: "alice".to_string(),
                content: "hi".to_string()
            },
            BridgeEvent::UserLeft { username: "alice".to_string() },
        ]
    );
    assert_eq!(mgr.state, ConnectionState::Live);
}

#[test]
fn kicked_is_forwarded_then_connection_ends() {
    let (mut mgr, mut bridge) = live_manager();
    let epoch = mgr.epoch;
    let close = mgr.handle_frame(epoch, r#"{"type":"kicked","message":"spamming"}"#, &mut bridge);
    assert!(close, "the manager tears the transport down after a kick");
    assert_eq!(mgr.state, ConnectionState::Closed);
    assert_eq!(
        bridge.drain(),
        vec![
            BridgeEvent::Kicked { message: "spamming".to_string() },
            BridgeEvent::Disconnected { reason: "kicked".to_string() },
        ]
    );
}

#[test]
fn server_error_is_forwarded_then_connection_ends() {
    let (mut mgr, mut bridge) = live_manager();
    let epoch = mgr.epoch;
    let close = mgr.handle_frame(epoch, r#"{"type":"error","message":"room full"}"#, &mut bridge);
    assert!(close);
    assert_eq!(mgr.state, ConnectionState::Closed);
    assert_eq!(
        bridge.drain(),
        vec![
            BridgeEvent::ServerError { message: "room full".to_string() },
            BridgeEvent::Disconnected { reason: "server error".to_string() },
        ]
    );
}

#[test]
fn auth_failure_is_forwarded_then_connection_ends() {
    let mut mgr = ConnectionManager::new();
    let mut bridge: EventQueue<BridgeEvent> = EventQueue::new();
    mgr.connect("alice", "general", "wrong").expect("accepted");
    mgr.transport_opened().expect("join frame");
    let epoch = mgr.epoch;
    let close = mgr.handle_frame(
        epoch,
        r#"{"type":"auth_failed","message":"bad password"}"#,
        &mut bridge,
    );
    assert!(close);
    assert_eq!(mgr.state, ConnectionState::Closed);
    // No `Connected` signal: a rejected authentication never confirmed
    // the connection.
    assert_eq!(
        bridge.drain(),
        vec![
            BridgeEvent::AuthFailed { message: "bad password".to_string() },
            BridgeEvent::Disconnected { reason: "authentication failed".to_string() },
        ]
    );
}

#[test]
fn undecodable_frame_is_diagnostic_not_fatal() {
    let (mut mgr, mut bridge) = live_manager();
    let epoch = mgr.epoch;
    let close = mgr.handle_frame(epoch, "garbage", &mut bridge);
    assert!(!close, "a protocol error does not end the connection");
    assert_eq!(mgr.state, ConnectionState::Live);
    assert_eq!(
        bridge.drain(),
        vec![BridgeEvent::Unrecognized { raw: "garbage".to_string() }]
    );
}

#[test]
fn connect_failure_emits_one_event_and_allows_retry() {
    let mut mgr = ConnectionManager::new();
    let mut bridge: EventQueue<BridgeEvent> = EventQueue::new();
    mgr.connect("alice", "general", "pw").expect("accepted");
    let epoch = mgr.epoch;
    mgr.connect_failed(epoch, "name resolution failed", &mut bridge);
    assert_eq!(mgr.state, ConnectionState::Closed);
    assert_eq!(
        bridge.drain(),
        vec![BridgeEvent::ConnectFailed { reason: "name resolution failed".to_string() }]
    );
    // A later failure report of the same attempt does nothing more.
    mgr.connect_failed(epoch, "name resolution failed", &mut bridge);
    assert_eq!(bridge.len(), 0);
    // A new connect with a valid identity is accepted.
    assert!(mgr.connect("alice", "general", "pw").is_ok());
    assert_eq!(mgr.state, ConnectionState::Connecting);
}

#[test]
fn send_is_accepted_only_while_live() {
    let mut mgr = ConnectionManager::new();
    assert!(matches!(mgr.send("hi"), Err(RejectedCommand::NotConnected)));
    let (mut mgr, _bridge) = live_manager();
    let frame = mgr.send("hi").expect("accepted while live");
    assert_eq!(frame, r#"{"type":"message","content":"hi"}"#);
    assert_eq!(mgr.state, ConnectionState::Live);
}

#[test]
fn user_requested_disconnect_completes_via_transport_closed() {
    let (mut mgr, mut bridge) = live_manager();
    mgr.disconnect().expect("accepted while live");
    assert_eq!(mgr.state, ConnectionState::Closing);
    let epoch = mgr.epoch;
    mgr.transport_closed(epoch, &mut bridge);
    assert_eq!(mgr.state, ConnectionState::Closed);
    assert_eq!(
        bridge.drain(),
        vec![BridgeEvent::Disconnected { reason: "user requested".to_string() }]
    );
}

#[test]
fn disconnect_without_connection_is_rejected() {
    let mut mgr = ConnectionManager::new();
    assert!(matches!(mgr.disconnect(), Err(RejectedCommand::NotConnected)));
    assert_eq!(mgr.state, ConnectionState::Idle);
}

#[test]
fn unexpected_closure_reports_disconnect() {
    let (mut mgr, mut bridge) = live_manager();
    let epoch = mgr.epoch;
    mgr.transport_closed(epoch, &mut bridge);
    assert_eq!(mgr.state, ConnectionState::Closed);
    assert_eq!(
        bridge.drain(),
        vec![BridgeEvent::Disconnected { reason: "connection closed".to_string() }]
    );
}

#[test]
fn transport_error_reports_its_reason() {
    let (mut mgr, mut bridge) = live_manager();
    let epoch = mgr.epoch;
    mgr.transport_error(epoch, "connection reset", &mut bridge);
    assert_eq!(mgr.state, ConnectionState::Closed);
    assert_eq!(
        bridge.drain(),
        vec![BridgeEvent::Disconnected { reason: "connection reset".to_string() }]
    );
}

#[test]
fn stale_epoch_events_are_discarded() {
    let (mut mgr, mut bridge) = live_manager();
    let old_epoch = mgr.epoch;
    mgr.transport_closed(old_epoch, &mut bridge);
    bridge.drain();
    // Reconnect: a new epoch begins.
    mgr.connect("alice", "general", "pw").expect("accepted");
    mgr.transport_opened().expect("join frame");
    // Late events of the just-closed connection are discarded, not
    // processed.
    mgr.handle_frame(old_epoch, r#"{"type":"chatclear"}"#, &mut bridge);
    mgr.transport_closed(old_epoch, &mut bridge);
    mgr.transport_error(old_epoch, "late error", &mut bridge);
    assert_eq!(bridge.len(), 0);
    assert_eq!(mgr.state, ConnectionState::Joining);
}
