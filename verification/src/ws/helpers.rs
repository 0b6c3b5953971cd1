//! The listener: whether to bind one, and what to make of who connects.
//!
//! At most one listener runs at a time. Asking for one on the address that
//! is served already is no fault and binds nothing; asking for one on another
//! address is refused, since the multiplexer never moves to another address
//! by itself.

use super::event::{tells, WsEvent, WsEventContent};
use super::manager::{with_connection, WsError, WsManager, WsManagerView};
use crate::peer::address::Endpoint;
use vstd::prelude::*;

verus! {

/// What is to be done about a listener that was asked for.
#[derive(Clone, Copy, Debug, PartialEq, Eq, Structural)]
pub enum ServerStart {
    /// A listener serves the address already: nothing is to be done.
    AlreadyRunning,
    /// No listener runs: one is to be bound on the address.
    Bind(Endpoint),
}

/// What becomes of a request to start a listener on `addr`: the step to
/// take, or the address of the listener that stands in the way.
pub open spec fn start_decision(state: WsManagerView, addr: Endpoint) -> Result<
    ServerStart,
    Endpoint,
> {
    if state.server_running {
        match state.server_address {
            Some(current) => if current == addr {
                Ok(ServerStart::AlreadyRunning)
            } else {
                Err(current)
            },
            None => Ok(ServerStart::Bind(addr)),
        }
    } else {
        Ok(ServerStart::Bind(addr))
    }
}

/// What becomes of a request to have a listener on `addr`: as for a request
/// to start one, but a listener that runs on an address not known is left
/// alone.
pub open spec fn ensure_decision(state: WsManagerView, addr: Endpoint) -> Result<
    ServerStart,
    Endpoint,
> {
    if state.server_running {
        match state.server_address {
            Some(current) => if current == addr {
                Ok(ServerStart::AlreadyRunning)
            } else {
                Err(current)
            },
            None => Ok(ServerStart::AlreadyRunning),
        }
    } else {
        Ok(ServerStart::Bind(addr))
    }
}

/// Whether `outcome` says what `decision` says about a listener on `addr`.
pub open spec fn answers(
    outcome: Result<ServerStart, WsError>,
    decision: Result<ServerStart, Endpoint>,
    addr: Endpoint,
) -> bool {
    match decision {
        Ok(step) => outcome == Ok::<ServerStart, WsError>(step),
        Err(running) => outcome matches Err(WsError::BindConflict { current, requested })
            && current == running && requested == addr,
    }
}

/// Decides about a request to start a listener on `addr`.
///
/// Where the listener that runs serves `addr` there is nothing to do. Where
/// it serves another address the request is refused. Otherwise a listener is
/// to be bound; once that is done its owner records it with
/// `set_server_state`, and again when the listener stops.
pub fn start_websocket_server(addr: Endpoint, ws_manager: &WsManager) -> (outcome: Result<
    ServerStart,
    WsError,
>)
    ensures
        answers(outcome, start_decision(ws_manager@, addr), addr),
{
    if ws_manager.is_server_running() {
        match ws_manager.get_server_address() {
            Some(current) => {
                if current == addr {
                    return Ok(ServerStart::AlreadyRunning);
                } else {
                    return Err(WsError::BindConflict { current, requested: addr });
                }
            },
            None => {},
        }
    }
    Ok(ServerStart::Bind(addr))
}

/// Decides about a request to have a listener on `addr`, started if none
/// runs yet.
pub fn ensure_websocket_server(addr: Endpoint, ws_manager: &WsManager) -> (outcome: Result<
    ServerStart,
    WsError,
>)
    ensures
        answers(outcome, ensure_decision(ws_manager@, addr), addr),
{
    if ws_manager.is_server_running() {
        match ws_manager.get_server_address() {
            Some(current) => {
                if current == addr {
                    Ok(ServerStart::AlreadyRunning)
                } else {
                    Err(WsError::BindConflict { current, requested: addr })
                }
            },
            None => Ok(ServerStart::AlreadyRunning),
        }
    } else {
        start_websocket_server(addr, ws_manager)
    }
}

/// Takes in how the handshake with a client at `addr` went.
///
/// Where it went well the connection is registered and reported. Where it
/// failed nothing is registered, and the failure is reported as a
/// disconnection that carries its description; the listener goes on.
pub fn accept_incoming(ws_manager: &mut WsManager, addr: String, handshake: Result<(), String>)
    -> (event: WsEvent)
    requires
        old(ws_manager).wf(),
    ensures
        final(ws_manager).wf(),
        match handshake {
            Ok(_) => {
                &&& final(ws_manager)@ == (WsManagerView {
                    connections: with_connection(old(ws_manager)@.connections, addr@),
                    ..old(ws_manager)@
                })
                &&& tells(event@, WsEventContent::Connected { addr: addr@ })
            },
            Err(why) => {
                &&& final(ws_manager)@ == old(ws_manager)@
                &&& tells(event@, WsEventContent::Disconnected {
                    addr: addr@,
                    error: Some(why@),
                })
            },
        },
{
    match handshake {
        Ok(_) => ws_manager.handle_connection(addr),
        Err(error) => ws_manager.emit_error(addr, error),
    }
}

} // verus!
