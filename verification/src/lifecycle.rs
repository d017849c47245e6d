//! The connection lifecycle state machine.
//!
//! The transport reports each connection change as an (old state, new state)
//! pair. Only four rows of that table are meaningful to the application
//! layer: a fresh connect request, loss of a live peer, establishment of a
//! pending connection, and everything else, which is deliberately a no-op.

use crate::ConnectionState;
use vstd::prelude::*;

verus! {

/// The transport's view of a connection, normalized to the values this layer
/// acts on.
#[derive(Clone, Copy, PartialEq, Eq, Structural, Debug)]
pub enum TransportState {
    Absent,
    Connecting,
    Connected,
    ClosedByPeer,
    ProblemDetectedLocally,
}

/// The row of the transition table an (old, new) state pair falls under.
#[derive(Clone, Copy, PartialEq, Eq, Structural, Debug)]
pub enum TransitionKind {
    /// A peer asks to connect: consult the connect-request policy.
    ConnectRequest,
    /// A pending or live connection ended: drop its entry, report Disconnected.
    PeerLost,
    /// A pending connection completed: register it, report Connected.
    Established,
    /// Any other pair: deliberately no action.
    Ignored,
}

pub open spec fn spec_classify(old_state: TransportState, new_state: TransportState)
    -> TransitionKind {
    match (old_state, new_state) {
        (TransportState::Absent, TransportState::Connecting) => TransitionKind::ConnectRequest,
        (TransportState::Connecting, TransportState::ClosedByPeer) => TransitionKind::PeerLost,
        (
            TransportState::Connecting,
            TransportState::ProblemDetectedLocally,
        ) => TransitionKind::PeerLost,
        (TransportState::Connected, TransportState::ClosedByPeer) => TransitionKind::PeerLost,
        (
            TransportState::Connected,
            TransportState::ProblemDetectedLocally,
        ) => TransitionKind::PeerLost,
        (TransportState::Connecting, TransportState::Connected) => TransitionKind::Established,
        _ => TransitionKind::Ignored,
    }
}

/// Sort an (old, new) transport state pair into the transition table.
pub fn classify(old_state: TransportState, new_state: TransportState) -> (k: TransitionKind)
    ensures
        k == spec_classify(old_state, new_state),
{
    match (old_state, new_state) {
        (TransportState::Absent, TransportState::Connecting) => TransitionKind::ConnectRequest,
        (TransportState::Connecting, TransportState::ClosedByPeer) => TransitionKind::PeerLost,
        (
            TransportState::Connecting,
            TransportState::ProblemDetectedLocally,
        ) => TransitionKind::PeerLost,
        (TransportState::Connected, TransportState::ClosedByPeer) => TransitionKind::PeerLost,
        (
            TransportState::Connected,
            TransportState::ProblemDetectedLocally,
        ) => TransitionKind::PeerLost,
        (TransportState::Connecting, TransportState::Connected) => TransitionKind::Established,
        _ => TransitionKind::Ignored,
    }
}

/// An instruction for the transport, decided by this layer and carried out by
/// the embedding.
#[derive(Clone, Copy, PartialEq, Eq, Structural, Debug)]
pub enum TransportAction {
    /// Accept the pending connection.
    Accept { handle: u64 },
    /// Close the connection with a numeric reason and no linger.
    Close { handle: u64, reason: i32, linger: bool },
}

pub open spec fn spec_connect_decision(handle: u64, accept: bool) -> TransportAction {
    if accept {
        TransportAction::Accept { handle }
    } else {
        TransportAction::Close { handle, reason: 0, linger: false }
    }
}

/// Turn the connect-request policy's verdict into the transport instruction:
/// accept the pending connection, or close it with reason 0 and no linger.
pub fn connect_decision(handle: u64, accept: bool) -> (a: TransportAction)
    ensures
        a == spec_connect_decision(handle, accept),
{
    if accept {
        TransportAction::Accept { handle }
    } else {
        TransportAction::Close { handle, reason: 0, linger: false }
    }
}

/// The notice sent to a peer whose connect request the policy rejected.
pub fn rejection_notice() -> (s: String)
    ensures
        s@ == "You are not allowed to connect"@,
{
    "You are not allowed to connect".to_owned()
}

/// Whether a new (identity, handle) entry may go into registry contents `m`:
/// neither side may already be present.
pub open spec fn insert_allowed(m: Map<u128, u64>, id: u128, handle: u64) -> bool {
    !m.contains_key(id) && !m.contains_value(handle)
}

/// What one transition does to the registry contents.
pub open spec fn spec_apply(m: Map<u128, u64>, kind: TransitionKind, id: u128, handle: u64)
    -> Map<u128, u64> {
    match kind {
        TransitionKind::ConnectRequest => m,
        TransitionKind::PeerLost => m.remove(id),
        TransitionKind::Established => if insert_allowed(m, id, handle) {
            m.insert(id, handle)
        } else {
            m
        },
        TransitionKind::Ignored => m,
    }
}

/// The lifecycle callback one transition owes: the identity it concerns and
/// the state reported to it, or nothing.
pub open spec fn spec_effect(m: Map<u128, u64>, kind: TransitionKind, id: u128, handle: u64)
    -> Option<(u128, ConnectionState)> {
    match kind {
        TransitionKind::ConnectRequest => Some((id, ConnectionState::Connecting)),
        TransitionKind::PeerLost => Some((id, ConnectionState::Disconnected)),
        TransitionKind::Established => if insert_allowed(m, id, handle) {
            Some((id, ConnectionState::Connected))
        } else {
            None
        },
        TransitionKind::Ignored => None,
    }
}

/// Law: transitions are idempotent on the registry. Replaying any (old, new)
/// pair for a connection that was already processed leaves the registry
/// exactly as it was, and a replayed establish owes no further callback.
/// (A replayed peer-loss pair still owes the Disconnected callback, as the
/// transition table directs unconditionally.)
pub proof fn lemma_transition_replay(
    m: Map<u128, u64>,
    old_state: TransportState,
    new_state: TransportState,
    id: u128,
    handle: u64,
)
    ensures
        spec_apply(
            spec_apply(m, spec_classify(old_state, new_state), id, handle),
            spec_classify(old_state, new_state),
            id,
            handle,
        ) == spec_apply(m, spec_classify(old_state, new_state), id, handle),
        spec_classify(old_state, new_state) == TransitionKind::Established ==> spec_effect(
            spec_apply(m, TransitionKind::Established, id, handle),
            TransitionKind::Established,
            id,
            handle,
        ) is None,
{
    let kind = spec_classify(old_state, new_state);
    let m1 = spec_apply(m, kind, id, handle);
    match kind {
        TransitionKind::PeerLost => {
            assert(m1.remove(id) =~= m1);
        },
        TransitionKind::Established => {
            assert(!insert_allowed(m1, id, handle));
        },
        _ => {},
    }
}

/// Law: provenance of registry entries. No transition creates an entry other
/// than an establish for exactly the identity it concerns; together with the
/// registry's own invariant this keeps every entry tied to a connection the
/// transport reported as connected.
pub proof fn lemma_entry_provenance(
    m: Map<u128, u64>,
    kind: TransitionKind,
    id: u128,
    handle: u64,
    k: u128,
)
    ensures
        spec_apply(m, kind, id, handle).contains_key(k) ==> m.contains_key(k) || (kind
            == TransitionKind::Established && k == id),
{
}

/// Law: the rejection path. A connect request mutates nothing, so when the
/// policy answers no, the registry holds no entry for the identity afterwards
/// (given it held none before, as for a fresh request), and the decision is
/// exactly one close instruction with reason 0 and no linger.
pub proof fn lemma_rejection_path(m: Map<u128, u64>, id: u128, handle: u64)
    requires
        !m.contains_key(id),
    ensures
        spec_apply(
            m,
            spec_classify(TransportState::Absent, TransportState::Connecting),
            id,
            handle,
        ) == m,
        !spec_apply(
            m,
            spec_classify(TransportState::Absent, TransportState::Connecting),
            id,
            handle,
        ).contains_key(id),
        spec_connect_decision(handle, false) == (TransportAction::Close {
            handle,
            reason: 0,
            linger: false,
        }),
{
}

} // verus!
