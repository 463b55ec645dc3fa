//! The connection manager: the state machine that owns one transport
//! connection, drives the connect → authenticate → stream → terminate
//! lifecycle, and turns inbound wire frames into ordered bridge events.
//!
//! The manager itself performs no I/O. The surrounding program opens
//! the transport, reads frames and writes the frames these methods hand
//! back; every decision — what to send, what to emit, what state comes
//! next — is made and verified here.

use vstd::prelude::*;
use crate::bridge::EventQueue;
use crate::codec::{client_frame, decode, decode_spec, encode};
use crate::message::{ClientMessage, ClientMessageView, DecodeError, ServerMessage,
    ServerMessageView};
use crate::text::{is_blank, is_blank_exec, is_reserved, is_reserved_name};

verus! {

// ---------------------------------------------------------------------
// Session identity
// ---------------------------------------------------------------------
/// Who is connecting, to which room, with which password. Immutable
/// once a connection attempt begins.
#[derive(Debug)]
pub struct SessionIdentity {
    pub username: String,
    pub chat_room_name: String,
    pub password: String,
}

/// The view of a session identity.
#[verifier::ext_equal]
pub struct SessionIdentityView {
    pub username: Seq<char>,
    pub chat_room_name: Seq<char>,
    pub password: Seq<char>,
}

impl View for SessionIdentity {
    type V = SessionIdentityView;

    open spec fn view(&self) -> SessionIdentityView {
        SessionIdentityView {
            username: self.username@,
            chat_room_name: self.chat_room_name@,
            password: self.password@,
        }
    }
}

/// The username a blank input falls back to.
pub open spec fn default_username() -> Seq<char> {
    seq!['g', 'u', 'e', 's', 't']
}

/// The room a blank input falls back to.
pub open spec fn default_room() -> Seq<char> {
    seq!['g', 'e', 'n', 'e', 'r', 'a', 'l']
}

/// The password a blank input falls back to.
pub open spec fn default_password() -> Seq<char> {
    seq!['d', 'e', 'f', 'a', 'u', 'l', 't']
}

/// The identity formed from raw inputs: blank fields are defaulted,
/// everything else is kept verbatim.
pub open spec fn resolved_identity(u: Seq<char>, c: Seq<char>, p: Seq<char>) -> SessionIdentityView {
    SessionIdentityView {
        username: if is_blank(u) {
            default_username()
        } else {
            u
        },
        chat_room_name: if is_blank(c) {
            default_room()
        } else {
            c
        },
        password: if is_blank(p) {
            default_password()
        } else {
            p
        },
    }
}

impl SessionIdentity {
    /// Forms a session identity from raw inputs: blank fields are
    /// defaulted, and a username whose normalized form is the reserved
    /// name is rejected outright.
    pub fn from_inputs(username: &str, chatname: &str, password: &str) -> (r: Result<
        SessionIdentity,
        RejectedCommand,
    >)
        ensures
            is_reserved_name(username@) ==> r == Err::<SessionIdentity, RejectedCommand>(
                RejectedCommand::ReservedUsername,
            ),
            !is_reserved_name(username@) ==> (r matches Ok(s) && s@ == resolved_identity(
                username@,
                chatname@,
                password@,
            )),
    {
        if is_reserved(username) {
            return Err(RejectedCommand::ReservedUsername);
        }
        let u = if is_blank_exec(username) {
            let d = String::from_str("guest");
            proof {
                reveal_strlit("guest");
                assert(d@ =~= default_username());
            }
            d
        } else {
            username.to_owned()
        };
        let c = if is_blank_exec(chatname) {
            let d = String::from_str("general");
            proof {
                reveal_strlit("general");
                assert(d@ =~= default_room());
            }
            d
        } else {
            chatname.to_owned()
        };
        let p = if is_blank_exec(password) {
            let d = String::from_str("default");
            proof {
                reveal_strlit("default");
                assert(d@ =~= default_password());
            }
            d
        } else {
            password.to_owned()
        };
        Ok(SessionIdentity { username: u, chat_room_name: c, password: p })
    }

    /// A field-for-field copy.
    pub fn duplicate(&self) -> (r: SessionIdentity)
        ensures
            r@ == self@,
    {
        SessionIdentity {
            username: self.username.clone(),
            chat_room_name: self.chat_room_name.clone(),
            password: self.password.clone(),
        }
    }

    /// The join command this identity authenticates with.
    pub open spec fn join_view(self) -> ClientMessageView {
        ClientMessageView::Join {
            username: self@.username,
            chatname: self@.chat_room_name,
            password: self@.password,
        }
    }
}

// ---------------------------------------------------------------------
// States, errors, events
// ---------------------------------------------------------------------
/// Where one connection attempt stands.
#[derive(Clone, Copy, Debug, PartialEq, Eq, Structural)]
pub enum ConnectionState {
    Idle,
    Connecting,
    Joining,
    Live,
    Closing,
    Closed,
}

/// A command refused synchronously, with no state change and no event.
#[derive(Clone, Copy, Debug, PartialEq, Eq, Structural)]
pub enum RejectedCommand {
    /// The username normalizes to the reserved name.
    ReservedUsername,
    /// A connect was issued while a connection is underway.
    AlreadyConnected,
    /// A send or disconnect was issued with no live connection.
    NotConnected,
}

/// What the UI consumer receives over the bridge: every decoded wire
/// event, plus the connection lifecycle signals.
#[derive(Debug, Clone, PartialEq, Eq)]
pub enum BridgeEvent {
    Connected,
    Disconnected { reason: String },
    ConnectFailed { reason: String },
    UserJoined { username: String },
    UserLeft { username: String },
    ChatMessage { username: String, content: String },
    ServerError { message: String },
    AuthFailed { message: String },
    ThemeColorChanged { color: String },
    BackgroundColorChanged { color: String },
    ChatCleared,
    Kicked { message: String },
    /// A frame that could not be decoded, kept verbatim.
    Unrecognized { raw: String },
}

/// The view of a bridge event.
#[verifier::ext_equal]
pub enum BridgeEventView {
    Connected,
    Disconnected { reason: Seq<char> },
    ConnectFailed { reason: Seq<char> },
    UserJoined { username: Seq<char> },
    UserLeft { username: Seq<char> },
    ChatMessage { username: Seq<char>, content: Seq<char> },
    ServerError { message: Seq<char> },
    AuthFailed { message: Seq<char> },
    ThemeColorChanged { color: Seq<char> },
    BackgroundColorChanged { color: Seq<char> },
    ChatCleared,
    Kicked { message: Seq<char> },
    Unrecognized { raw: Seq<char> },
}

impl View for BridgeEvent {
    type V = BridgeEventView;

    open spec fn view(&self) -> BridgeEventView {
        match self {
            BridgeEvent::Connected => BridgeEventView::Connected,
            BridgeEvent::Disconnected { reason } => BridgeEventView::Disconnected {
                reason: reason@,
            },
            BridgeEvent::ConnectFailed { reason } => BridgeEventView::ConnectFailed {
                reason: reason@,
            },
            BridgeEvent::UserJoined { username } => BridgeEventView::UserJoined {
                username: username@,
            },
            BridgeEvent::UserLeft { username } => BridgeEventView::UserLeft { username: username@ },
            BridgeEvent::ChatMessage { username, content } => BridgeEventView::ChatMessage {
                username: username@,
                content: content@,
            },
            BridgeEvent::ServerError { message } => BridgeEventView::ServerError {
                message: message@,
            },
            BridgeEvent::AuthFailed { message } => BridgeEventView::AuthFailed {
                message: message@,
            },
            BridgeEvent::ThemeColorChanged { color } => BridgeEventView::ThemeColorChanged {
                color: color@,
            },
            BridgeEvent::BackgroundColorChanged { color } => (
            BridgeEventView::BackgroundColorChanged { color: color@ }),
            BridgeEvent::ChatCleared => BridgeEventView::ChatCleared,
            BridgeEvent::Kicked { message } => BridgeEventView::Kicked { message: message@ },
            BridgeEvent::Unrecognized { raw } => BridgeEventView::Unrecognized { raw: raw@ },
        }
    }
}

/// The views of a queue of bridge events, in order.
pub open spec fn ev(s: Seq<BridgeEvent>) -> Seq<BridgeEventView> {
    s.map_values(|e: BridgeEvent| e@)
}

// ---------------------------------------------------------------------
// What one inbound frame means
// ---------------------------------------------------------------------
/// The reason reported when the server kicks this client.
pub open spec fn reason_kicked() -> Seq<char> {
    seq!['k', 'i', 'c', 'k', 'e', 'd']
}

/// The reason reported when the server sends an error frame.
pub open spec fn reason_server_error() -> Seq<char> {
    seq!['s', 'e', 'r', 'v', 'e', 'r', ' ', 'e', 'r', 'r', 'o', 'r']
}

/// The reason reported when authentication fails.
pub open spec fn reason_auth_failed() -> Seq<char> {
    seq!['a', 'u', 't', 'h', 'e', 'n', 't', 'i', 'c', 'a', 't', 'i', 'o', 'n', ' ', 'f', 'a', 'i',
        'l', 'e', 'd']
}

/// The reason reported after a user-requested disconnect completes.
pub open spec fn reason_user_requested() -> Seq<char> {
    seq!['u', 's', 'e', 'r', ' ', 'r', 'e', 'q', 'u', 'e', 's', 't', 'e', 'd']
}

/// The reason reported when the transport closes unexpectedly.
pub open spec fn reason_connection_closed() -> Seq<char> {
    seq!['c', 'o', 'n', 'n', 'e', 'c', 't', 'i', 'o', 'n', ' ', 'c', 'l', 'o', 's', 'e', 'd']
}

/// A frame after which the manager tears the connection down.
pub open spec fn fatal_msg(m: ServerMessageView) -> bool {
    m is Error || m is AuthFailed || m is Kicked
}

/// The disconnect reason a fatal frame carries.
pub open spec fn close_reason(m: ServerMessageView) -> Seq<char> {
    match m {
        ServerMessageView::Kicked { .. } => reason_kicked(),
        ServerMessageView::AuthFailed { .. } => reason_auth_failed(),
        _ => reason_server_error(),
    }
}

/// The bridge event a decoded inbound event is forwarded as.
pub open spec fn event_of(m: ServerMessageView) -> BridgeEventView {
    match m {
        ServerMessageView::Join { username } => BridgeEventView::UserJoined { username },
        ServerMessageView::Leave { username } => BridgeEventView::UserLeft { username },
        ServerMessageView::Message { username, content } => BridgeEventView::ChatMessage {
            username,
            content,
        },
        ServerMessageView::Error { message } => BridgeEventView::ServerError { message },
        ServerMessageView::AuthFailed { message } => BridgeEventView::AuthFailed { message },
        ServerMessageView::ColorShift { color } => BridgeEventView::ThemeColorChanged { color },
        ServerMessageView::BackgroundShift { color } => BridgeEventView::BackgroundColorChanged {
            color,
        },
        ServerMessageView::ChatClear => BridgeEventView::ChatCleared,
        ServerMessageView::Kicked { message } => BridgeEventView::Kicked { message },
    }
}

/// Every bridge event one frame gives rise to, in delivery order: the
/// `Connected` signal if this is the first confirming frame of the
/// connection — a fatal frame confirms nothing — then the frame's own
/// event, then the `Disconnected` signal if the frame is fatal. An
/// undecodable frame is forwarded verbatim as a diagnostic and is not
/// fatal.
pub open spec fn frame_events(joining: bool, s: Seq<char>) -> Seq<BridgeEventView> {
    match decode_spec(s) {
        Some(m) => (if joining && !fatal_msg(m) {
            seq![BridgeEventView::Connected]
        } else {
            Seq::<BridgeEventView>::empty()
        }) + seq![event_of(m)] + (if fatal_msg(m) {
            seq![(BridgeEventView::Disconnected { reason: close_reason(m) })]
        } else {
            Seq::<BridgeEventView>::empty()
        }),
        None => (if joining {
            seq![BridgeEventView::Connected]
        } else {
            Seq::<BridgeEventView>::empty()
        }) + seq![(BridgeEventView::Unrecognized { raw: s })],
    }
}

/// The state one frame leaves the connection in.
pub open spec fn frame_next_state(s: Seq<char>) -> ConnectionState {
    match decode_spec(s) {
        Some(m) => if fatal_msg(m) {
            ConnectionState::Closed
        } else {
            ConnectionState::Live
        },
        None => ConnectionState::Live,
    }
}

/// Whether one frame makes the manager tear the transport down.
pub open spec fn frame_closes(s: Seq<char>) -> bool {
    match decode_spec(s) {
        Some(m) => fatal_msg(m),
        None => false,
    }
}

// ---------------------------------------------------------------------
// The connection manager
// ---------------------------------------------------------------------
/// The state machine owning one connection attempt. `epoch` names the
/// current attempt: events of an earlier connection carry an older
/// epoch and are discarded, so a reconnect cannot be confused by late
/// frames of a just-closed transport.
pub struct ConnectionManager {
    pub state: ConnectionState,
    pub session: Option<SessionIdentity>,
    pub epoch: u64,
}

impl ConnectionManager {
    /// Every state past `Idle`/`Closed` has a session identity.
    pub open spec fn wf(self) -> bool {
        (self.state is Connecting || self.state is Joining || self.state is Live
            || self.state is Closing) ==> self.session is Some
    }

    /// Whether inbound frames are currently consumed.
    pub open spec fn accepts_frames(self) -> bool {
        self.state is Joining || self.state is Live
    }

    /// A manager with no connection yet.
    pub fn new() -> (r: ConnectionManager)
        ensures
            r.wf(),
            r.state is Idle,
            r.epoch == 0,
    {
        ConnectionManager { state: ConnectionState::Idle, session: None, epoch: 0 }
    }

    /// Starts a connection attempt. Rejected — with no state change, no
    /// event on either side and no transport attempt — if a connection
    /// is already underway, or if the username normalizes to the
    /// reserved name. On acceptance the resolved identity is stored and
    /// returned for the caller to dial with, and a fresh epoch begins.
    pub fn connect(&mut self, username: &str, chatname: &str, password: &str) -> (r: Result<
        SessionIdentity,
        RejectedCommand,
    >)
        requires
            old(self).wf(),
            old(self).epoch < u64::MAX,
        ensures
            final(self).wf(),
            !(old(self).state is Idle || old(self).state is Closed) ==> r == Err::<
                SessionIdentity,
                RejectedCommand,
            >(RejectedCommand::AlreadyConnected) && *final(self) == *old(self),
            (old(self).state is Idle || old(self).state is Closed) && is_reserved_name(username@)
                ==> r == Err::<SessionIdentity, RejectedCommand>(RejectedCommand::ReservedUsername)
                && *final(self) == *old(self),
            (old(self).state is Idle || old(self).state is Closed) && !is_reserved_name(username@)
                ==> (r matches Ok(s) && s@ == resolved_identity(username@, chatname@, password@)
                && final(self).state is Connecting && final(self).epoch == old(self).epoch + 1 && (
            final(self).session matches Some(t) && t@ == s@)),
    {
        match self.state {
            ConnectionState::Idle | ConnectionState::Closed => {},
            _ => {
                return Err(RejectedCommand::AlreadyConnected);
            },
        }
        let s = match SessionIdentity::from_inputs(username, chatname, password) {
            Ok(s) => s,
            Err(e) => {
                return Err(e);
            },
        };
        self.session = Some(s.duplicate());
        self.state = ConnectionState::Connecting;
        self.epoch = self.epoch + 1;
        Ok(s)
    }

    /// Called when the transport has opened: hands back the single join
    /// frame, which must be written before any other outbound traffic,
    /// and awaits the first confirming event.
    pub fn transport_opened(&mut self) -> (r: Result<String, RejectedCommand>)
        requires
            old(self).wf(),
        ensures
            final(self).wf(),
            final(self).session == old(self).session,
            final(self).epoch == old(self).epoch,
            old(self).state is Connecting ==> (r matches Ok(f) && f@ == client_frame(
                old(self).session->0.join_view(),
            ) && final(self).state is Joining),
            !(old(self).state is Connecting) ==> r == Err::<String, RejectedCommand>(
                RejectedCommand::NotConnected,
            ) && *final(self) == *old(self),
    {
        match self.state {
            ConnectionState::Connecting => {},
            _ => {
                return Err(RejectedCommand::NotConnected);
            },
        }
        let join = match &self.session {
            Some(s) => ClientMessage::Join {
                username: s.username.clone(),
                chatname: s.chat_room_name.clone(),
                password: s.password.clone(),
            },
            None => {
                proof {
                    assert(false);
                }
                return Err(RejectedCommand::NotConnected);
            },
        };
        let frame = encode(&join);
        self.state = ConnectionState::Joining;
        Ok(frame)
    }

    /// Called when the connection attempt itself failed (name
    /// resolution, refused connection, handshake): the attempt ends in
    /// `Closed`, exactly one `ConnectFailed` is emitted, and nothing is
    /// retried — a new connect is the consumer's decision.
    pub fn connect_failed(&mut self, epoch: u64, reason: &str, bridge: &mut EventQueue<
        BridgeEvent,
    >)
        requires
            old(self).wf(),
        ensures
            final(self).wf(),
            final(self).session == old(self).session,
            final(self).epoch == old(self).epoch,
            final(bridge).closed == old(bridge).closed,
            !(epoch == old(self).epoch && old(self).state is Connecting) ==> *final(self) == *old(
                self,
            ) && final(bridge).items@ == old(bridge).items@,
            epoch == old(self).epoch && old(self).state is Connecting ==> final(self).state
                is Closed && (!old(bridge).closed ==> ev(final(bridge).items@) == ev(
                old(bridge).items@,
            ).push(BridgeEventView::ConnectFailed { reason: reason@ })) && (old(bridge).closed
                ==> final(bridge).items@ == old(bridge).items@),
    {
        if epoch != self.epoch {
            return ;
        }
        match self.state {
            ConnectionState::Connecting => {},
            _ => {
                return ;
            },
        }
        self.state = ConnectionState::Closed;
        bridge.send(BridgeEvent::ConnectFailed { reason: reason.to_owned() });
        proof {
            if !old(bridge).closed {
                assert(ev(bridge.items@) =~= ev(old(bridge).items@).push(
                    BridgeEventView::ConnectFailed { reason: reason@ },
                ));
            }
        }
    }

    /// Hands back the wire frame for one chat line, accepted only while
    /// the connection is live; the manager itself does not change.
    pub fn send(&mut self, content: &str) -> (r: Result<String, RejectedCommand>)
        ensures
            *final(self) == *old(self),
            old(self).state is Live ==> (r matches Ok(f) && f@ == client_frame(
                ClientMessageView::Message { content: content@ },
            )),
            !(old(self).state is Live) ==> r == Err::<String, RejectedCommand>(
                RejectedCommand::NotConnected,
            ),
    {
        match self.state {
            ConnectionState::Live => {},
            _ => {
                return Err(RejectedCommand::NotConnected);
            },
        }
        Ok(encode(&(ClientMessage::Message { content: content.to_owned() })))
    }

    /// A user-requested disconnect: accepted from `Live`, after which
    /// the caller closes the transport and reports back through
    /// `transport_closed`.
    pub fn disconnect(&mut self) -> (r: Result<(), RejectedCommand>)
        requires
            old(self).wf(),
        ensures
            final(self).wf(),
            final(self).session == old(self).session,
            final(self).epoch == old(self).epoch,
            old(self).state is Live ==> r is Ok && final(self).state is Closing,
            !(old(self).state is Live) ==> r == Err::<(), RejectedCommand>(
                RejectedCommand::NotConnected,
            ) && *final(self) == *old(self),
    {
        match self.state {
            ConnectionState::Live => {},
            _ => {
                return Err(RejectedCommand::NotConnected);
            },
        }
        self.state = ConnectionState::Closing;
        Ok(())
    }

    /// Consumes one inbound frame of the connection named by `epoch`.
    /// Frames of a stale epoch, or arriving in a state that does not
    /// read, are discarded unprocessed. Otherwise the frame's events are
    /// appended to the bridge in order, the state advances as the frame
    /// dictates, and the result says whether the caller must now tear
    /// the transport down.
    pub fn handle_frame(&mut self, epoch: u64, frame: &str, bridge: &mut EventQueue<BridgeEvent>)
        -> (close: bool)
        requires
            old(self).wf(),
        ensures
            final(self).wf(),
            final(self).session == old(self).session,
            final(self).epoch == old(self).epoch,
            final(bridge).closed == old(bridge).closed,
            !(epoch == old(self).epoch && old(self).accepts_frames()) ==> *final(self) == *old(self)
                && final(bridge).items@ == old(bridge).items@ && !close,
            epoch == old(self).epoch && old(self).accepts_frames() ==> final(self).state
                == frame_next_state(frame@) && close == frame_closes(frame@) && (!old(
                bridge,
            ).closed ==> ev(final(bridge).items@) == ev(old(bridge).items@) + frame_events(
                old(self).state is Joining,
                frame@,
            )) && (old(bridge).closed ==> final(bridge).items@ == old(bridge).items@),
    {
        if epoch != self.epoch {
            return false;
        }
        let joining = match self.state {
            ConnectionState::Joining => true,
            ConnectionState::Live => false,
            _ => {
                return false;
            },
        };
        match decode(frame) {
            Ok(m) => {
                let reason: Option<String> = match &m {
                    ServerMessage::Kicked { .. } => Some(String::from_str("kicked")),
                    ServerMessage::AuthFailed { .. } => Some(
                        String::from_str("authentication failed"),
                    ),
                    ServerMessage::Error { .. } => Some(String::from_str("server error")),
                    _ => None,
                };
                proof {
                    reveal_strlit("kicked");
                    reveal_strlit("authentication failed");
                    reveal_strlit("server error");
                    assert("kicked"@ =~= reason_kicked());
                    assert("authentication failed"@ =~= reason_auth_failed());
                    assert("server error"@ =~= reason_server_error());
                }
                if joining && reason.is_none() {
                    bridge.send(BridgeEvent::Connected);
                }
                let forwarded: BridgeEvent = match m {
                    ServerMessage::Join { username } => BridgeEvent::UserJoined { username },
                    ServerMessage::Leave { username } => BridgeEvent::UserLeft { username },
                    ServerMessage::Message { username, content } => BridgeEvent::ChatMessage {
                        username,
                        content,
                    },
                    ServerMessage::Error { message } => BridgeEvent::ServerError { message },
                    ServerMessage::AuthFailed { message } => BridgeEvent::AuthFailed { message },
                    ServerMessage::ColorShift { color } => BridgeEvent::ThemeColorChanged { color },
                    ServerMessage::BackgroundShift { color } => (
                    BridgeEvent::BackgroundColorChanged { color }),
                    ServerMessage::ChatClear => BridgeEvent::ChatCleared,
                    ServerMessage::Kicked { message } => BridgeEvent::Kicked { message },
                };
                bridge.send(forwarded);
                if let Some(text) = reason {
                    bridge.send(BridgeEvent::Disconnected { reason: text });
                    self.state = ConnectionState::Closed;
                    proof {
                        if !old(bridge).closed {
                            assert(ev(bridge.items@) =~= ev(old(bridge).items@) + frame_events(
                                old(self).state is Joining,
                                frame@,
                            ));
                        }
                    }
                    true
                } else {
                    self.state = ConnectionState::Live;
                    proof {
                        if !old(bridge).closed {
                            assert(ev(bridge.items@) =~= ev(old(bridge).items@) + frame_events(
                                old(self).state is Joining,
                                frame@,
                            ));
                        }
                    }
                    false
                }
            },
            Err(DecodeError::Unrecognized(raw)) => {
                if joining {
                    bridge.send(BridgeEvent::Connected);
                }
                bridge.send(BridgeEvent::Unrecognized { raw });
                self.state = ConnectionState::Live;
                proof {
                    if !old(bridge).closed {
                        assert(ev(bridge.items@) =~= ev(old(bridge).items@) + frame_events(
                            old(self).state is Joining,
                            frame@,
                        ));
                    }
                }
                false
            },
        }
    }

    /// Called when the transport has closed. During `Closing` this
    /// completes the user-requested disconnect; during `Joining` or
    /// `Live` it is an unexpected closure. Either way the connection
    /// ends in `Closed` with exactly one `Disconnected` event; stale
    /// epochs are discarded.
    pub fn transport_closed(&mut self, epoch: u64, bridge: &mut EventQueue<BridgeEvent>)
        requires
            old(self).wf(),
        ensures
            final(self).wf(),
            final(self).session == old(self).session,
            final(self).epoch == old(self).epoch,
            final(bridge).closed == old(bridge).closed,
            !(epoch == old(self).epoch && (old(self).accepts_frames() || old(self).state
                is Closing)) ==> *final(self) == *old(self) && final(bridge).items@ == old(
                bridge,
            ).items@,
            epoch == old(self).epoch && (old(self).accepts_frames() || old(self).state is Closing)
                ==> final(self).state is Closed && (!old(bridge).closed ==> ev(
                final(bridge).items@,
            ) == ev(old(bridge).items@).push(
                BridgeEventView::Disconnected {
                    reason: if old(self).state is Closing {
                        reason_user_requested()
                    } else {
                        reason_connection_closed()
                    },
                },
            )) && (old(bridge).closed ==> final(bridge).items@ == old(bridge).items@),
    {
        if epoch != self.epoch {
            return ;
        }
        let reason = match self.state {
            ConnectionState::Closing => String::from_str("user requested"),
            ConnectionState::Joining | ConnectionState::Live => String::from_str(
                "connection closed",
            ),
            _ => {
                return ;
            },
        };
        proof {
            reveal_strlit("user requested");
            reveal_strlit("connection closed");
            assert("user requested"@ =~= reason_user_requested());
            assert("connection closed"@ =~= reason_connection_closed());
        }
        self.state = ConnectionState::Closed;
        bridge.send(BridgeEvent::Disconnected { reason });
        proof {
            if !old(bridge).closed {
                assert(ev(bridge.items@) =~= ev(old(bridge).items@).push(
                    BridgeEventView::Disconnected {
                        reason: if old(self).state is Closing {
                            reason_user_requested()
                        } else {
                            reason_connection_closed()
                        },
                    },
                ));
            }
        }
    }

    /// Called on a mid-session transport error. The connection ends in
    /// `Closed` with one `Disconnected` event carrying the error's own
    /// description — or the user-requested reason if a disconnect was
    /// already underway; stale epochs are discarded. Nothing is retried
    /// here: whether to reconnect is the consumer's decision.
    pub fn transport_error(&mut self, epoch: u64, reason: &str, bridge: &mut EventQueue<
        BridgeEvent,
    >)
        requires
            old(self).wf(),
        ensures
            final(self).wf(),
            final(self).session == old(self).session,
            final(self).epoch == old(self).epoch,
            final(bridge).closed == old(bridge).closed,
            !(epoch == old(self).epoch && (old(self).accepts_frames() || old(self).state
                is Closing)) ==> *final(self) == *old(self) && final(bridge).items@ == old(
                bridge,
            ).items@,
            epoch == old(self).epoch && (old(self).accepts_frames() || old(self).state is Closing)
                ==> final(self).state is Closed && (!old(bridge).closed ==> ev(
                final(bridge).items@,
            ) == ev(old(bridge).items@).push(
                BridgeEventView::Disconnected {
                    reason: if old(self).state is Closing {
                        reason_user_requested()
                    } else {
                        reason@
                    },
                },
            )) && (old(bridge).closed ==> final(bridge).items@ == old(bridge).items@),
    {
        if epoch != self.epoch {
            return ;
        }
        let text = match self.state {
            ConnectionState::Closing => {
                let t = String::from_str("user requested");
                proof {
                    reveal_strlit("user requested");
                    assert(t@ =~= reason_user_requested());
                }
                t
            },
            ConnectionState::Joining | ConnectionState::Live => reason.to_owned(),
            _ => {
                return ;
            },
        };
        self.state = ConnectionState::Closed;
        bridge.send(BridgeEvent::Disconnected { reason: text });
        proof {
            if !old(bridge).closed {
                assert(ev(bridge.items@) =~= ev(old(bridge).items@).push(
                    BridgeEventView::Disconnected {
                        reason: if old(self).state is Closing {
                            reason_user_requested()
                        } else {
                            reason@
                        },
                    },
                ));
            }
        }
    }
}

} // verus!
