use termchat::app_state::{app_event_of, AppEvent, AppState, Screen};
use termchat::manager::BridgeEvent;

#[test]
fn app_state_starts_on_splash_disconnected() {
    let s = AppState::new();
    assert!(matches!(s.screen, Screen::Splash));
    assert_eq!(s.username, "");
    assert_eq!(s.chatname, "");
    assert!(!s.connected);
}

#[test]
fn app_state_setters_update_their_field() {
    let mut s = AppState::new();
    s.set_screen(Screen::Chat);
    assert!(matches!(s.screen, Screen::Chat));
    s.set_username("alice".to_string());
    assert_eq!(s.username, "alice");
    s.set_chatname("general".to_string());
    assert_eq!(s.chatname, "general");
    s.set_connected(true);
    assert!(s.connected);
    assert_eq!(s.username, "alice");
}

#[test]
fn chat_message_is_tagged_server_only_for_reserved_sender() {
    let from_server = app_event_of(&BridgeEvent::ChatMessage {
        username: "Server".to_string(),
        content: "welcome".to_string(),
    });
    assert!(matches!(
        from_server,
        Some(AppEvent::MessageReceived { is_server: true, .. })
    ));
    let from_user = app_event_of(&BridgeEvent::ChatMessage {
        username: "alice".to_string(),
        content: "hi".to_string(),
    });
    match from_user {
        Some(AppEvent::MessageReceived { username, content, is_server }) => {
            assert_eq!(username, "alice");
            assert_eq!(content, "hi");
            assert!(!is_server);
        }
        other => panic!("unexpected translation: {:?}", other),
    }
}

#[test]
fn padded_server_sender_is_not_the_server() {
    // The tagging takes the sender verbatim: padding makes it an
    // ordinary user, not the service.
    let padded = app_event_of(&BridgeEvent::ChatMessage {
        username: " server ".to_string(),
        content: "pretending".to_string(),
    });
    assert!(matches!(
        padded,
        Some(AppEvent::MessageReceived { is_server: false, .. })
    ));
    let shouted = app_event_of(&BridgeEvent::ChatMessage {
        username: "SERVER".to_string(),
        content: "welcome".to_string(),
    });
    assert!(matches!(
        shouted,
        Some(AppEvent::MessageReceived { is_server: true, .. })
    ));
}

#[test]
fn lifecycle_failures_render_as_disconnect() {
    for e in [
        BridgeEvent::Disconnected { reason: "kicked".to_string() },
        BridgeEvent::ConnectFailed { reason: "refused".to_string() },
        BridgeEvent::ServerError { message: "oops".to_string() },
        BridgeEvent::AuthFailed { message: "bad password".to_string() },
    ] {
        assert!(matches!(app_event_of(&e), Some(AppEvent::Disconnected)));
    }
}

#[test]
fn wire_events_translate_to_their_ui_events() {
    assert!(matches!(
        app_event_of(&BridgeEvent::Connected),
        Some(AppEvent::Connected)
    ));
    assert!(matches!(
        app_event_of(&BridgeEvent::UserJoined { username: "bob".to_string() }),
        Some(AppEvent::UserJoined(u)) if u == "bob"
    ));
    assert!(matches!(
        app_event_of(&BridgeEvent::UserLeft { username: "bob".to_string() }),
        Some(AppEvent::UserLeft(u)) if u == "bob"
    ));
    assert!(matches!(
        app_event_of(&BridgeEvent::ThemeColorChanged { color: "#87CEEB".to_string() }),
        Some(AppEvent::ThemeColorChange(c)) if c == "#87CEEB"
    ));
    assert!(matches!(
        app_event_of(&BridgeEvent::BackgroundColorChanged { color: "#000000".to_string() }),
        Some(AppEvent::BackgroundColorChange(c)) if c == "#000000"
    ));
    assert!(matches!(
        app_event_of(&BridgeEvent::ChatCleared),
        Some(AppEvent::ClearMessages)
    ));
    assert!(matches!(
        app_event_of(&BridgeEvent::Kicked { message: "spamming".to_string() }),
        Some(AppEvent::Kicked(m)) if m == "spamming"
    ));
    assert!(app_event_of(&BridgeEvent::Unrecognized { raw: "???".to_string() }).is_none());
}
