//! Client-side core of a real-time chat client: the wire codec for the
//! service's frame protocol, the deterministic user-color assignor, the
//! connection state machine, and the ordered event bridge that carries
//! events between the connection manager and the user interface.

pub mod app_state;
pub mod bridge;
pub mod codec;
pub mod colors;
pub mod manager;
pub mod message;
pub mod text;
