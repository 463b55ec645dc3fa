//! UI-facing session state and the UI event union, together with the
//! consumer-side translation of bridge events. The translation — not
//! the codec — is where a chat message whose sender case-insensitively
//! equals the reserved name gets tagged as server-originated.

use vstd::prelude::*;
use crate::manager::{BridgeEvent, BridgeEventView};
use crate::text::{is_server_name, is_server_name_exec};

verus! {

/// Which screen the UI is showing.
#[derive(Debug, Clone)]
pub enum Screen {
    Splash,
    Connection,
    Chat,
}

/// One event as the UI consumer sees it.
#[derive(Debug, Clone)]
pub enum AppEvent {
    SplashComplete,
    ServerStatusUpdate(bool),
    GeneralCountUpdate(i32),
    ConnectRequested { username: String, chatname: String, password: String },
    Connected,
    Disconnected,
    MessageReceived { username: String, content: String, is_server: bool },
    SendMessage(String),
    ClearMessages,
    UserJoined(String),
    UserLeft(String),
    ThemeColorChange(String),
    BackgroundColorChange(String),
    Kicked(String),
    Quit,
}

/// What the UI remembers about the session it is rendering.
pub struct AppState {
    pub screen: Screen,
    pub username: String,
    pub chatname: String,
    pub connected: bool,
}

impl AppState {
    /// The initial state: splash screen, nothing entered, not connected.
    pub fn new() -> (r: AppState)
        ensures
            r.screen is Splash,
            r.username@.len() == 0,
            r.chatname@.len() == 0,
            !r.connected,
    {
        AppState {
            screen: Screen::Splash,
            username: String::new(),
            chatname: String::new(),
            connected: false,
        }
    }

    pub fn set_screen(&mut self, screen: Screen)
        ensures
            final(self).screen == screen,
            final(self).username == old(self).username,
            final(self).chatname == old(self).chatname,
            final(self).connected == old(self).connected,
    {
        self.screen = screen;
    }

    pub fn set_username(&mut self, username: String)
        ensures
            final(self).username == username,
            final(self).screen == old(self).screen,
            final(self).chatname == old(self).chatname,
            final(self).connected == old(self).connected,
    {
        self.username = username;
    }

    pub fn set_chatname(&mut self, chatname: String)
        ensures
            final(self).chatname == chatname,
            final(self).screen == old(self).screen,
            final(self).username == old(self).username,
            final(self).connected == old(self).connected,
    {
        self.chatname = chatname;
    }

    pub fn set_connected(&mut self, connected: bool)
        ensures
            final(self).connected == connected,
            final(self).screen == old(self).screen,
            final(self).username == old(self).username,
            final(self).chatname == old(self).chatname,
    {
        self.connected = connected;
    }
}

/// Translates one bridge event into the event the UI consumer renders.
/// A chat message is tagged as server-originated exactly when its
/// sender, taken verbatim, case-insensitively equals the reserved name
/// — a padded sender such as `" server "` is an ordinary user here;
/// lifecycle failures all render as a disconnect; an undecodable-frame
/// diagnostic has no UI rendering and yields nothing.
pub fn app_event_of(e: &BridgeEvent) -> (r: Option<AppEvent>)
    ensures
        e@ is Connected ==> (r matches Some(a) && a is Connected),
        (e@ is Disconnected || e@ is ConnectFailed || e@ is ServerError || e@ is AuthFailed) ==> (
        r matches Some(a) && a is Disconnected),
        e@ matches BridgeEventView::ChatMessage { username, content } ==> (r matches Some(a)
            && a matches AppEvent::MessageReceived { username: u, content: c, is_server } && u@
            == username && c@ == content && is_server == is_server_name(username)),
        e@ matches BridgeEventView::UserJoined { username } ==> (r matches Some(a)
            && a matches AppEvent::UserJoined(u) && u@ == username),
        e@ matches BridgeEventView::UserLeft { username } ==> (r matches Some(a)
            && a matches AppEvent::UserLeft(u) && u@ == username),
        e@ matches BridgeEventView::ThemeColorChanged { color } ==> (r matches Some(a)
            && a matches AppEvent::ThemeColorChange(c) && c@ == color),
        e@ matches BridgeEventView::BackgroundColorChanged { color } ==> (r matches Some(a)
            && a matches AppEvent::BackgroundColorChange(c) && c@ == color),
        e@ is ChatCleared ==> (r matches Some(a) && a is ClearMessages),
        e@ matches BridgeEventView::Kicked { message } ==> (r matches Some(a)
            && a matches AppEvent::Kicked(m) && m@ == message),
        e@ is Unrecognized ==> r is None,
{
    match e {
        BridgeEvent::Connected => Some(AppEvent::Connected),
        BridgeEvent::Disconnected { .. } => Some(AppEvent::Disconnected),
        BridgeEvent::ConnectFailed { .. } => Some(AppEvent::Disconnected),
        BridgeEvent::ServerError { .. } => Some(AppEvent::Disconnected),
        BridgeEvent::AuthFailed { .. } => Some(AppEvent::Disconnected),
        BridgeEvent::ChatMessage { username, content } => Some(
            AppEvent::MessageReceived {
                username: username.clone(),
                content: content.clone(),
                is_server: is_server_name_exec(username.as_str()),
            },
        ),
        BridgeEvent::UserJoined { username } => Some(AppEvent::UserJoined(username.clone())),
        BridgeEvent::UserLeft { username } => Some(AppEvent::UserLeft(username.clone())),
        BridgeEvent::ThemeColorChanged { color } => Some(AppEvent::ThemeColorChange(color.clone())),
        BridgeEvent::BackgroundColorChanged { color } => Some(
            AppEvent::BackgroundColorChange(color.clone()),
        ),
        BridgeEvent::ChatCleared => Some(AppEvent::ClearMessages),
        BridgeEvent::Kicked { message } => Some(AppEvent::Kicked(message.clone())),
        BridgeEvent::Unrecognized { .. } => None,
    }
}

} // verus!
