//! The two wire message unions of the service protocol: commands the
//! client sends and events the server delivers, together with their
//! mathematical views used by the codec's contracts.

use vstd::prelude::*;

verus! {

/// A command the client writes to the transport.
#[derive(Debug, Clone, PartialEq, Eq)]
pub enum ClientMessage {
    /// Sent exactly once per connection, immediately after the transport
    /// opens, before any other outbound traffic.
    Join { username: String, chatname: String, password: String },
    /// One chat line typed by the user.
    Message { content: String },
}

/// An event the server delivers over the transport.
#[derive(Debug, Clone, PartialEq, Eq)]
pub enum ServerMessage {
    Join { username: String },
    Leave { username: String },
    Message { username: String, content: String },
    Error { message: String },
    AuthFailed { message: String },
    ColorShift { color: String },
    BackgroundShift { color: String },
    ChatClear,
    Kicked { message: String },
}

/// Why a frame could not be decoded. The raw text is kept, not dropped,
/// so the consumer can still display it.
#[derive(Debug, Clone, PartialEq, Eq)]
pub enum DecodeError {
    Unrecognized(String),
}

/// The view of a `ClientMessage`: the same shape over character sequences.
#[verifier::ext_equal]
pub enum ClientMessageView {
    Join { username: Seq<char>, chatname: Seq<char>, password: Seq<char> },
    Message { content: Seq<char> },
}

/// The view of a `ServerMessage`: the same shape over character sequences.
#[verifier::ext_equal]
pub enum ServerMessageView {
    Join { username: Seq<char> },
    Leave { username: Seq<char> },
    Message { username: Seq<char>, content: Seq<char> },
    Error { message: Seq<char> },
    AuthFailed { message: Seq<char> },
    ColorShift { color: Seq<char> },
    BackgroundShift { color: Seq<char> },
    ChatClear,
    Kicked { message: Seq<char> },
}

impl View for ClientMessage {
    type V = ClientMessageView;

    open spec fn view(&self) -> ClientMessageView {
        match self {
            ClientMessage::Join { username, chatname, password } => ClientMessageView::Join {
                username: username@,
                chatname: chatname@,
                password: password@,
            },
            ClientMessage::Message { content } => ClientMessageView::Message { content: content@ },
        }
    }
}

impl View for ServerMessage {
    type V = ServerMessageView;

    open spec fn view(&self) -> ServerMessageView {
        match self {
            ServerMessage::Join { username } => ServerMessageView::Join { username: username@ },
            ServerMessage::Leave { username } => ServerMessageView::Leave { username: username@ },
            ServerMessage::Message { username, content } => ServerMessageView::Message {
                username: username@,
                content: content@,
            },
            ServerMessage::Error { message } => ServerMessageView::Error { message: message@ },
            ServerMessage::AuthFailed { message } => ServerMessageView::AuthFailed {
                message: message@,
            },
            ServerMessage::ColorShift { color } => ServerMessageView::ColorShift { color: color@ },
            ServerMessage::BackgroundShift { color } => ServerMessageView::BackgroundShift {
                color: color@,
            },
            ServerMessage::ChatClear => ServerMessageView::ChatClear,
            ServerMessage::Kicked { message } => ServerMessageView::Kicked { message: message@ },
        }
    }
}

} // verus!
