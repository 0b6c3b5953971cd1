//! The connection multiplexer: one message channel per remote address.

pub mod event;
pub mod helpers;
pub mod laws;
pub mod manager;

pub use event::{WsEvent, WsEventContent, WsEventView};
pub use helpers::{
    accept_incoming, ensure_websocket_server, start_websocket_server, ServerStart,
};
pub use manager::{ConnectionView, Frame, WsError, WsManager, WsManagerView};
