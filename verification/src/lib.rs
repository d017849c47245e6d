//! Session layer above a low-level transport socket: stable peer identities,
//! a bijective connection registry, a lifecycle state machine, message
//! routing, and send/broadcast planning.

use vstd::prelude::*;

pub mod identity;
pub mod lifecycle;
pub mod registry;
pub mod server;

verus! {

/// The simplified connection status exposed to lifecycle callbacks.
#[derive(Clone, Copy, PartialEq, Eq, Structural, Debug)]
pub enum ConnectionState {
    Disconnected,
    Disconnecting,
    Connecting,
    Connected,
}

impl ConnectionState {
    /// The numeric value a foreign caller sees for this state.
    pub fn code(&self) -> (c: u8)
        ensures
            c == match *self {
                ConnectionState::Disconnected => 0u8,
                ConnectionState::Disconnecting => 1u8,
                ConnectionState::Connecting => 2u8,
                ConnectionState::Connected => 3u8,
            },
    {
        match self {
            ConnectionState::Disconnected => 0,
            ConnectionState::Disconnecting => 1,
            ConnectionState::Connecting => 2,
            ConnectionState::Connected => 3,
        }
    }
}

} // verus!
