//! The server core: the verified decision layer of one server instance.
//!
//! The embedding drives it in cycles: it polls the transport, hands every
//! lifecycle event to `handle_transition` (asking the connect-request policy
//! where the outcome says so), performs the returned transport action, fires
//! the returned callback, and only then hands the cycle's inbound messages to
//! the routing functions. Sends and broadcasts are planned here — resolved
//! against the registry and shaped into outbound units — and submitted to the
//! transport by the embedding.

use crate::identity::PlayerId;
use crate::lifecycle::TransitionKind;
use crate::lifecycle::TransportState;
use crate::lifecycle::classify;
use crate::lifecycle::insert_allowed;
use crate::lifecycle::spec_apply;
use crate::lifecycle::spec_classify;
use crate::registry::ConnectionRegistry;
use crate::ConnectionState;
use vstd::prelude::*;
use vstd::slice::slice_to_vec;

verus! {

/// How a send is to be carried: retransmitted and ordered, or best-effort.
#[derive(Clone, Copy, PartialEq, Eq, Structural, Debug)]
pub enum Reliability {
    Unreliable,
    Reliable,
}

/// One planned transport send: which connection, how, and what bytes.
#[derive(Debug)]
pub struct OutboundUnit {
    pub handle: u64,
    pub reliability: Reliability,
    pub payload: Vec<u8>,
}

/// The error taxonomy of this layer.
#[derive(Clone, Copy, PartialEq, Eq, Structural, Debug)]
pub enum ServerError {
    /// The transport subsystem could not be created.
    InitializationFailed,
    /// The transport refused an accept or send instruction.
    TransportRejected,
    /// A send addressed an identity with no live registry entry.
    UnknownRecipient,
    /// An inbound message arrived for a handle absent from the registry.
    UnknownConnection,
}

impl ServerError {
    /// A short description of the error.
    pub fn message(&self) -> (s: String)
        ensures
            match self {
                ServerError::InitializationFailed => s@ == "Cannot create server socket"@,
                ServerError::TransportRejected => s@
                    == "Some error occured when sending the message"@,
                ServerError::UnknownRecipient => s@ == "There is not such player to send"@,
                ServerError::UnknownConnection => s@ == "Unknown connection"@,
            },
    {
        match self {
            ServerError::InitializationFailed => "Cannot create server socket".to_owned(),
            ServerError::TransportRejected => "Some error occured when sending the message"
                .to_owned(),
            ServerError::UnknownRecipient => "There is not such player to send".to_owned(),
            ServerError::UnknownConnection => "Unknown connection".to_owned(),
        }
    }
}

/// What the embedding must still do after one lifecycle transition was
/// applied.
#[derive(Clone, Copy, PartialEq, Eq, Structural, Debug)]
pub enum TransitionEffect {
    /// A connect request: fire the Connecting callback, ask the policy, then
    /// carry out `connect_decision` of the verdict.
    AwaitPolicy,
    /// The registry was brought up to date; fire the callback with this state.
    Notify { state: ConnectionState },
    /// An establish collided with an existing entry; nothing was changed and
    /// no callback is owed.
    Conflict,
    /// A transition outside the table; deliberately nothing to do.
    Ignored,
}

/// One inbound message, routed back to the stable identity that sent it.
#[derive(Debug)]
pub struct InboundMessage {
    pub sender: PlayerId,
    /// A type tag reserved for future protocol use; always 0 today.
    pub message_type: i32,
    pub payload: Vec<u8>,
}

/// The inbound items of one cycle that have a registry entry, in arrival
/// order.
pub open spec fn routed(m: Map<u128, u64>, inbound: Seq<(u64, Vec<u8>)>) -> Seq<(u64, Vec<u8>)>
    decreases inbound.len(),
{
    if inbound.len() == 0 {
        Seq::empty()
    } else {
        let rest = routed(m, inbound.drop_last());
        if m.contains_value(inbound.last().0) {
            rest.push(inbound.last())
        } else {
            rest
        }
    }
}

/// What a broadcast plan must look like: one unit per registry entry, all
/// carrying the same bytes under the same reliability class, no handle twice,
/// and every connected peer covered.
pub open spec fn spec_broadcast(
    m: Map<u128, u64>,
    units: Seq<OutboundUnit>,
    data: Seq<u8>,
    rel: Reliability,
) -> bool {
    &&& units.len() == m.dom().len()
    &&& forall|i: int|
        0 <= i < units.len() ==> m.contains_value(#[trigger] units[i].handle) && units[i].reliability
            == rel && units[i].payload@ == data
    &&& forall|i: int, j: int|
        0 <= i < j < units.len() ==> #[trigger] units[i].handle != #[trigger] units[j].handle
    &&& forall|k: u128|
        #[trigger] m.contains_key(k) ==> exists|i: int|
            0 <= i < units.len() && #[trigger] units[i].handle == m[k]
}

/// The verified core of one server instance: the connection registry and the
/// decisions taken over it.
pub struct ServerCore {
    pub registry: ConnectionRegistry,
}

impl ServerCore {
    /// The registry contents, identity value to handle.
    pub open spec fn entries(&self) -> Map<u128, u64> {
        self.registry.entries()
    }

    pub open spec fn wf(&self) -> bool {
        self.registry.wf()
    }

    /// A fresh core with no connected peers.
    pub fn new() -> (s: ServerCore)
        ensures
            s.wf(),
            s.entries() == Map::<u128, u64>::empty(),
    {
        ServerCore { registry: ConnectionRegistry::new() }
    }

    /// Apply one transport lifecycle transition for the connection `handle`
    /// whose endpoint resolves to `id`: mutate the registry as the transition
    /// table directs and say what the embedding still owes (policy consult,
    /// callback, or nothing).
    pub fn handle_transition(
        &mut self,
        old_state: TransportState,
        new_state: TransportState,
        handle: u64,
        id: PlayerId,
    ) -> (eff: TransitionEffect)
        requires
            old(self).wf(),
        ensures
            final(self).wf(),
            final(self).entries() == spec_apply(
                old(self).entries(),
                spec_classify(old_state, new_state),
                id.value,
                handle,
            ),
            match spec_classify(old_state, new_state) {
                TransitionKind::ConnectRequest => eff == TransitionEffect::AwaitPolicy,
                TransitionKind::PeerLost => eff == (TransitionEffect::Notify {
                    state: ConnectionState::Disconnected,
                }),
                TransitionKind::Established => eff == if insert_allowed(
                    old(self).entries(),
                    id.value,
                    handle,
                ) {
                    (TransitionEffect::Notify { state: ConnectionState::Connected })
                } else {
                    TransitionEffect::Conflict
                },
                TransitionKind::Ignored => eff == TransitionEffect::Ignored,
            },
    {
        match classify(old_state, new_state) {
            TransitionKind::ConnectRequest => TransitionEffect::AwaitPolicy,
            TransitionKind::PeerLost => {
                self.registry.remove_by_identifier(id);
                TransitionEffect::Notify { state: ConnectionState::Disconnected }
            },
            TransitionKind::Established => {
                let ok = self.registry.insert(id, handle);
                if ok {
                    TransitionEffect::Notify { state: ConnectionState::Connected }
                } else {
                    TransitionEffect::Conflict
                }
            },
            TransitionKind::Ignored => TransitionEffect::Ignored,
        }
    }

    /// Route one inbound message back to the identity owning its handle. A
    /// message for an unregistered handle is an expected race during teardown:
    /// it is reported as unknown-connection, never as a fatal condition.
    pub fn route_message(&self, handle: u64, payload: &[u8]) -> (r: Result<
        InboundMessage,
        ServerError,
    >)
        requires
            self.wf(),
        ensures
            match r {
                Ok(msg) => self.entries().contains_pair(msg.sender.value, handle)
                    && msg.message_type == 0 && msg.payload@ == payload@,
                Err(e) => e == ServerError::UnknownConnection && !self.entries().contains_value(
                    handle,
                ),
            },
    {
        match self.registry.lookup_by_handle(handle) {
            Some(sender) => Ok(
                InboundMessage { sender, message_type: 0, payload: slice_to_vec(payload) },
            ),
            None => Err(ServerError::UnknownConnection),
        }
    }

    /// Route one cycle's inbound messages in arrival order. Items whose
    /// handle has no registry entry are dropped; processing always continues
    /// with the remaining items.
    pub fn route_messages(&self, inbound: &Vec<(u64, Vec<u8>)>) -> (out: Vec<InboundMessage>)
        requires
            self.wf(),
        ensures
            out@.len() == routed(self.entries(), inbound@).len(),
            forall|i: int|
                0 <= i < out@.len() ==> self.entries().contains_pair(
                    #[trigger] out@[i].sender.value,
                    routed(self.entries(), inbound@)[i].0,
                ),
            forall|i: int| 0 <= i < out@.len() ==> #[trigger] out@[i].message_type == 0,
            forall|i: int|
                0 <= i < out@.len() ==> #[trigger] out@[i].payload@ == routed(
                    self.entries(),
                    inbound@,
                )[i].1@,
    {
        let ghost m = self.entries();
        let mut out: Vec<InboundMessage> = Vec::new();
        let mut i: usize = 0;
        while i < inbound.len()
            invariant
                self.wf(),
                m == self.entries(),
                i <= inbound.len(),
                out@.len() == routed(m, inbound@.subrange(0, i as int)).len(),
                forall|j: int|
                    0 <= j < out@.len() ==> self.entries().contains_pair(
                        #[trigger] out@[j].sender.value,
                        routed(m, inbound@.subrange(0, i as int))[j].0,
                    ),
                forall|j: int| 0 <= j < out@.len() ==> #[trigger] out@[j].message_type == 0,
                forall|j: int|
                    0 <= j < out@.len() ==> #[trigger] out@[j].payload@ == routed(
                        m,
                        inbound@.subrange(0, i as int),
                    )[j].1@,
            decreases inbound.len() - i,
        {
            let ghost prefix = inbound@.subrange(0, i as int);
            let ghost next_prefix = inbound@.subrange(0, i as int + 1);
            proof {
                assert(next_prefix.drop_last() =~= prefix);
                assert(next_prefix.last() == inbound@[i as int]);
            }
            let item = &inbound[i];
            let handle = item.0;
            match self.route_message(handle, item.1.as_slice()) {
                Ok(msg) => {
                    proof {
                        let k = msg.sender.value;
                        assert(self.entries().dom().contains(k) && self.entries()[k] == handle);
                        assert(self.entries().contains_value(handle));
                        assert(routed(m, next_prefix) == routed(m, prefix).push(
                            inbound@[i as int],
                        ));
                    }
                    let ghost prev = out@;
                    let ghost pushed = msg;
                    out.push(msg);
                    proof {
                        assert(out@ == prev.push(pushed));
                        assert forall|j: int|
                            0 <= j < out@.len() implies self.entries().contains_pair(
                            #[trigger] out@[j].sender.value,
                            routed(m, next_prefix)[j].0,
                        ) by {
                            if j < prev.len() {
                                assert(out@[j] == prev[j]);
                                assert(routed(m, next_prefix)[j] == routed(m, prefix)[j]);
                            } else {
                                assert(out@[j] == pushed);
                                assert(routed(m, next_prefix)[j] == inbound@[i as int]);
                            }
                        }
                        assert forall|j: int|
                            0 <= j < out@.len() implies #[trigger] out@[j].payload@ == routed(
                            m,
                            next_prefix,
                        )[j].1@ by {
                            if j < prev.len() {
                                assert(out@[j] == prev[j]);
                                assert(routed(m, next_prefix)[j] == routed(m, prefix)[j]);
                            } else {
                                assert(out@[j] == pushed);
                                assert(routed(m, next_prefix)[j] == inbound@[i as int]);
                            }
                        }
                        assert forall|j: int|
                            0 <= j < out@.len() implies #[trigger] out@[j].message_type == 0 by {
                            if j < prev.len() {
                                assert(out@[j] == prev[j]);
                            } else {
                                assert(out@[j] == pushed);
                            }
                        }
                    }
                },
                Err(_) => {
                    proof {
                        assert(routed(m, next_prefix) == routed(m, prefix));
                    }
                },
            }
            i = i + 1;
        }
        proof {
            assert(inbound@.subrange(0, inbound@.len() as int) =~= inbound@);
            let routed_all = routed(self.entries(), inbound@);
            assert(routed(m, inbound@.subrange(0, i as int)) == routed_all);
        }
        out
    }

    /// Plan an unreliable send to one identity. Fails with unknown-recipient
    /// exactly when the identity has no live registry entry.
    pub fn send(&self, player: &PlayerId, data: &[u8]) -> (r: Result<OutboundUnit, ServerError>)
        requires
            self.wf(),
        ensures
            match r {
                Ok(unit) => self.entries().contains_key(player.value) && unit.handle
                    == self.entries()[player.value] && unit.reliability == Reliability::Unreliable
                    && unit.payload@ == data@,
                Err(e) => e == ServerError::UnknownRecipient && !self.entries().contains_key(
                    player.value,
                ),
            },
    {
        self.plan_send(player, Reliability::Unreliable, data)
    }

    /// Plan a reliable send to one identity. Fails with unknown-recipient
    /// exactly when the identity has no live registry entry.
    pub fn send_reliable(&self, player: &PlayerId, data: &[u8]) -> (r: Result<
        OutboundUnit,
        ServerError,
    >)
        requires
            self.wf(),
        ensures
            match r {
                Ok(unit) => self.entries().contains_key(player.value) && unit.handle
                    == self.entries()[player.value] && unit.reliability == Reliability::Reliable
                    && unit.payload@ == data@,
                Err(e) => e == ServerError::UnknownRecipient && !self.entries().contains_key(
                    player.value,
                ),
            },
    {
        self.plan_send(player, Reliability::Reliable, data)
    }

    fn plan_send(&self, player: &PlayerId, reliability: Reliability, data: &[u8]) -> (r: Result<
        OutboundUnit,
        ServerError,
    >)
        requires
            self.wf(),
        ensures
            match r {
                Ok(unit) => self.entries().contains_key(player.value) && unit.handle
                    == self.entries()[player.value] && unit.reliability == reliability
                    && unit.payload@ == data@,
                Err(e) => e == ServerError::UnknownRecipient && !self.entries().contains_key(
                    player.value,
                ),
            },
    {
        match self.registry.lookup_by_identifier(*player) {
            Some(handle) => Ok(
                OutboundUnit { handle, reliability, payload: slice_to_vec(data) },
            ),
            None => Err(ServerError::UnknownRecipient),
        }
    }

    /// Plan an unreliable broadcast: one outbound unit per connected peer.
    /// With an empty registry the plan is empty, which is success, not an
    /// error.
    pub fn broadcast(&self, data: &[u8]) -> (units: Vec<OutboundUnit>)
        requires
            self.wf(),
        ensures
            spec_broadcast(self.entries(), units@, data@, Reliability::Unreliable),
    {
        self.plan_broadcast(Reliability::Unreliable, data)
    }

    /// Plan a reliable broadcast: one outbound unit per connected peer.
    pub fn broadcast_reliable(&self, data: &[u8]) -> (units: Vec<OutboundUnit>)
        requires
            self.wf(),
        ensures
            spec_broadcast(self.entries(), units@, data@, Reliability::Reliable),
    {
        self.plan_broadcast(Reliability::Reliable, data)
    }

    fn plan_broadcast(&self, reliability: Reliability, data: &[u8]) -> (units: Vec<OutboundUnit>)
        requires
            self.wf(),
        ensures
            spec_broadcast(self.entries(), units@, data@, reliability),
    {
        let pairs = self.registry.pairs();
        let mut units: Vec<OutboundUnit> = Vec::new();
        let mut i: usize = 0;
        while i < pairs.len()
            invariant
                self.wf(),
                units@.len() == i,
                i <= pairs@.len(),
                forall|j: int| 0 <= j < i ==> #[trigger] units@[j].handle == pairs@[j].1,
                forall|j: int| 0 <= j < i ==> #[trigger] units@[j].reliability == reliability,
                forall|j: int| 0 <= j < i ==> #[trigger] units@[j].payload@ == data@,
                forall|j: int|
                    0 <= j < pairs@.len() ==> self.entries().contains_pair(
                        #[trigger] pairs@[j].0,
                        pairs@[j].1,
                    ),
            decreases pairs.len() - i,
        {
            let pair = pairs[i];
            proof {
                assert(pair == pairs@[i as int]);
            }
            let handle = pair.1;
            let ghost prev = units@;
            let unit = OutboundUnit { handle, reliability, payload: slice_to_vec(data) };
            proof {
                assert(unit.handle == pairs@[i as int].1);
                assert(unit.reliability == reliability);
                assert(unit.payload@ == data@);
            }
            let ghost pushed = unit;
            units.push(unit);
            proof {
                assert(units@ == prev.push(pushed));
                assert forall|j: int| 0 <= j < i + 1 implies #[trigger] units@[j].handle
                    == pairs@[j].1 by {
                    if j < i {
                        assert(units@[j] == prev[j]);
                    } else {
                        assert(units@[j] == pushed);
                    }
                }
                assert forall|j: int| 0 <= j < i + 1 implies #[trigger] units@[j].reliability
                    == reliability by {
                    if j < i {
                        assert(units@[j] == prev[j]);
                    } else {
                        assert(units@[j] == pushed);
                    }
                }
                assert forall|j: int| 0 <= j < i + 1 implies #[trigger] units@[j].payload@
                    == data@ by {
                    if j < i {
                        assert(units@[j] == prev[j]);
                    } else {
                        assert(units@[j] == pushed);
                    }
                }
            }
            i = i + 1;
        }
        proof {
            let m = self.entries();
            assert(units@.len() == pairs@.len());
            assert forall|a: int| 0 <= a < units@.len() implies m.contains_value(
                #[trigger] units@[a].handle,
            ) by {
                assert(m.contains_pair(pairs@[a].0, pairs@[a].1));
                assert(m.dom().contains(pairs@[a].0) && m[pairs@[a].0] == units@[a].handle);
            }
            assert forall|a: int, b: int| 0 <= a < b < units@.len() implies #[trigger] units@[a].handle
                != #[trigger] units@[b].handle by {
                assert(pairs@[a].0 != pairs@[b].0);
                assert(m.contains_pair(pairs@[a].0, pairs@[a].1));
                assert(m.contains_pair(pairs@[b].0, pairs@[b].1));
            }
            assert forall|k: u128| #[trigger] m.contains_key(k) implies exists|i2: int|
                0 <= i2 < units@.len() && #[trigger] units@[i2].handle == m[k] by {
                let i2 = choose|i2: int| 0 <= i2 < pairs@.len() && pairs@[i2] == (k, m[k]);
                assert(units@[i2].handle == m[k]);
            }
        }
        units
    }
}

} // verus!
