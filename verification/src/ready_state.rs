//! The ready state that a browser reports for a WebSocket.

use vstd::prelude::*;
use vstd::std_specs::convert::FromSpecImpl;

verus! {

/// Life-cycle state of a WebSocket, as numbered by the browser API.
#[derive(Debug, Clone, Copy, PartialEq, Eq, Structural)]
#[allow(clippy::upper_case_acronyms)]
pub enum WebSocketReadyState {
    CONNECTING,
    OPEN,
    CLOSING,
    CLOSED,
    INVALID,
}

impl WebSocketReadyState {
    /// The state that a numeric ready-state code denotes; every code above 3
    /// is `INVALID`.
    pub open spec fn of_code(value: u16) -> WebSocketReadyState {
        if value == 0 {
            WebSocketReadyState::CONNECTING
        } else if value == 1 {
            WebSocketReadyState::OPEN
        } else if value == 2 {
            WebSocketReadyState::CLOSING
        } else if value == 3 {
            WebSocketReadyState::CLOSED
        } else {
            WebSocketReadyState::INVALID
        }
    }
}

impl From<u16> for WebSocketReadyState {
    fn from(value: u16) -> (state: WebSocketReadyState) {
        match value {
            0 => WebSocketReadyState::CONNECTING,
            1 => WebSocketReadyState::OPEN,
            2 => WebSocketReadyState::CLOSING,
            3 => WebSocketReadyState::CLOSED,
            _ => WebSocketReadyState::INVALID,
        }
    }
}

impl FromSpecImpl<u16> for WebSocketReadyState {
    open spec fn obeys_from_spec() -> bool {
        true
    }

    open spec fn from_spec(value: u16) -> WebSocketReadyState {
        WebSocketReadyState::of_code(value)
    }
}

} // verus!
