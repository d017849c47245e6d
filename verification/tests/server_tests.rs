use omgpp_server::identity::resolve_identity;
use omgpp_server::identity::PlayerId;
use omgpp_server::lifecycle::classify;
use omgpp_server::lifecycle::connect_decision;
use omgpp_server::lifecycle::rejection_notice;
use omgpp_server::lifecycle::TransitionKind;
use omgpp_server::lifecycle::TransportAction;
use omgpp_server::lifecycle::TransportState;
use omgpp_server::server::Reliability;
use omgpp_server::server::ServerCore;
use omgpp_server::server::ServerError;
use omgpp_server::server::TransitionEffect;
use omgpp_server::ConnectionState;

#[test]
fn transition_table_classification() {
    let a = TransportState::Absent;
    let cg = TransportState::Connecting;
    let cd = TransportState::Connected;
    let cp = TransportState::ClosedByPeer;
    let pd = TransportState::ProblemDetectedLocally;
    assert_eq!(classify(a, cg), TransitionKind::ConnectRequest);
    assert_eq!(classify(cg, cp), TransitionKind::PeerLost);
    assert_eq!(classify(cg, pd), TransitionKind::PeerLost);
    assert_eq!(classify(cd, cp), TransitionKind::PeerLost);
    assert_eq!(classify(cd, pd), TransitionKind::PeerLost);
    assert_eq!(classify(cg, cd), TransitionKind::Established);
    assert_eq!(classify(a, cd), TransitionKind::Ignored);
    assert_eq!(classify(cd, cd), TransitionKind::Ignored);
    assert_eq!(classify(cp, a), TransitionKind::Ignored);
}

#[test]
fn connect_decision_accept_and_reject() {
    assert_eq!(connect_decision(7, true), TransportAction::Accept { handle: 7 });
    assert_eq!(
        connect_decision(7, false),
        TransportAction::Close { handle: 7, reason: 0, linger: false }
    );
    assert_eq!(rejection_notice().as_str(), "You are not allowed to connect");
}

#[test]
fn connection_scenario_full_lifecycle() {
    let mut core = ServerCore::new();
    let id = resolve_identity("203.0.113.5", 4000);
    let handle: u64 = 7;

    // None -> Connecting: a connect request; the registry gains no entry yet.
    let eff = core.handle_transition(
        TransportState::Absent,
        TransportState::Connecting,
        handle,
        id,
    );
    assert_eq!(eff, TransitionEffect::AwaitPolicy);
    assert!(matches!(core.send(&id, b"early"), Err(ServerError::UnknownRecipient)));
    assert_eq!(connect_decision(handle, true), TransportAction::Accept { handle: 7 });

    // Connecting -> Connected: the registry now maps the identity to the handle.
    let eff = core.handle_transition(
        TransportState::Connecting,
        TransportState::Connected,
        handle,
        id,
    );
    assert_eq!(eff, TransitionEffect::Notify { state: ConnectionState::Connected });
    let unit = core.send_reliable(&id, b"hello").unwrap();
    assert_eq!(unit.handle, handle);
    assert_eq!(unit.reliability, Reliability::Reliable);
    assert_eq!(unit.payload, b"hello".to_vec());

    // Connected -> ClosedByPeer: the entry goes away.
    let eff = core.handle_transition(
        TransportState::Connected,
        TransportState::ClosedByPeer,
        handle,
        id,
    );
    assert_eq!(eff, TransitionEffect::Notify { state: ConnectionState::Disconnected });
    assert!(matches!(core.send(&id, b"late"), Err(ServerError::UnknownRecipient)));
}

#[test]
fn replaying_a_processed_transition_changes_nothing() {
    let mut core = ServerCore::new();
    let id = resolve_identity("198.51.100.1", 9000);
    let handle: u64 = 3;
    core.handle_transition(TransportState::Absent, TransportState::Connecting, handle, id);
    let eff = core.handle_transition(
        TransportState::Connecting,
        TransportState::Connected,
        handle,
        id,
    );
    assert_eq!(eff, TransitionEffect::Notify { state: ConnectionState::Connected });
    assert_eq!(core.registry.len(), 1);

    // The same establish pair again: no mutation, no callback owed.
    let eff = core.handle_transition(
        TransportState::Connecting,
        TransportState::Connected,
        handle,
        id,
    );
    assert_eq!(eff, TransitionEffect::Conflict);
    assert_eq!(core.registry.len(), 1);
    assert_eq!(core.registry.lookup_by_identifier(id), Some(handle));

    // An ignored pair is genuinely a no-op.
    let eff = core.handle_transition(
        TransportState::Connected,
        TransportState::Connected,
        handle,
        id,
    );
    assert_eq!(eff, TransitionEffect::Ignored);
    assert_eq!(core.registry.len(), 1);
}

#[test]
fn rejection_leaves_no_entry_and_one_close() {
    let mut core = ServerCore::new();
    let id = resolve_identity("198.51.100.2", 9000);
    let eff = core.handle_transition(TransportState::Absent, TransportState::Connecting, 4, id);
    assert_eq!(eff, TransitionEffect::AwaitPolicy);
    // The policy answers no: exactly one close instruction, registry untouched.
    assert_eq!(
        connect_decision(4, false),
        TransportAction::Close { handle: 4, reason: 0, linger: false }
    );
    assert!(!core.registry.contains_identifier(id));
    assert_eq!(core.registry.len(), 0);
}

#[test]
fn message_routing_and_vanished_connection() {
    let mut core = ServerCore::new();
    let id = resolve_identity("203.0.113.9", 5000);
    core.handle_transition(TransportState::Absent, TransportState::Connecting, 11, id);
    core.handle_transition(TransportState::Connecting, TransportState::Connected, 11, id);

    let msg = core.route_message(11, b"ping").unwrap();
    assert_eq!(msg.sender.value, id.value);
    assert_eq!(msg.message_type, 0);
    assert_eq!(msg.payload, b"ping".to_vec());

    // A handle with no registry entry: unknown-connection, not a fatal error.
    assert_eq!(core.route_message(99, b"lost").map(|m| m.sender), Err(ServerError::UnknownConnection));

    // A vanished connection in the middle of a batch is skipped and the rest
    // of the cycle's items still go through, in order.
    let inbound = vec![
        (11u64, b"one".to_vec()),
        (99u64, b"gone".to_vec()),
        (11u64, b"two".to_vec()),
    ];
    let out = core.route_messages(&inbound);
    assert_eq!(out.len(), 2);
    assert_eq!(out[0].sender.value, id.value);
    assert_eq!(out[0].payload, b"one".to_vec());
    assert_eq!(out[1].payload, b"two".to_vec());
}

#[test]
fn send_unreliable_and_reliable_classes() {
    let mut core = ServerCore::new();
    let id = resolve_identity("203.0.113.10", 5000);
    core.handle_transition(TransportState::Absent, TransportState::Connecting, 12, id);
    core.handle_transition(TransportState::Connecting, TransportState::Connected, 12, id);
    let unreliable = core.send(&id, b"u").unwrap();
    assert_eq!(unreliable.reliability, Reliability::Unreliable);
    assert_eq!(unreliable.handle, 12);
    let reliable = core.send_reliable(&id, b"r").unwrap();
    assert_eq!(reliable.reliability, Reliability::Reliable);
    let unknown = PlayerId { value: 424242 };
    assert!(matches!(core.send(&unknown, b"x"), Err(ServerError::UnknownRecipient)));
    assert!(matches!(core.send_reliable(&unknown, b"x"), Err(ServerError::UnknownRecipient)));
}

#[test]
fn broadcast_covers_every_peer_once() {
    let mut core = ServerCore::new();
    let a = resolve_identity("203.0.113.11", 5000);
    let b = resolve_identity("203.0.113.12", 5000);
    core.handle_transition(TransportState::Absent, TransportState::Connecting, 21, a);
    core.handle_transition(TransportState::Connecting, TransportState::Connected, 21, a);
    core.handle_transition(TransportState::Absent, TransportState::Connecting, 22, b);
    core.handle_transition(TransportState::Connecting, TransportState::Connected, 22, b);

    let units = core.broadcast(b"all");
    assert_eq!(units.len(), 2);
    let mut handles: Vec<u64> = units.iter().map(|u| u.handle).collect();
    handles.sort();
    assert_eq!(handles, vec![21, 22]);
    for u in &units {
        assert_eq!(u.reliability, Reliability::Unreliable);
        assert_eq!(u.payload, b"all".to_vec());
    }
    let units = core.broadcast_reliable(b"all");
    assert_eq!(units.len(), 2);
    for u in &units {
        assert_eq!(u.reliability, Reliability::Reliable);
    }
}

#[test]
fn broadcast_on_empty_registry_is_a_noop() {
    let core = ServerCore::new();
    let units = core.broadcast(b"payload");
    assert!(units.is_empty());
    let units = core.broadcast_reliable(b"payload");
    assert!(units.is_empty());
}

#[test]
fn error_messages() {
    assert_eq!(
        ServerError::InitializationFailed.message().as_str(),
        "Cannot create server socket"
    );
    assert_eq!(
        ServerError::TransportRejected.message().as_str(),
        "Some error occured when sending the message"
    );
    assert_eq!(
        ServerError::UnknownRecipient.message().as_str(),
        "There is not such player to send"
    );
    assert_eq!(ServerError::UnknownConnection.message().as_str(), "Unknown connection");
}

#[test]
fn connection_state_codes() {
    assert_eq!(ConnectionState::Disconnected.code(), 0);
    assert_eq!(ConnectionState::Disconnecting.code(), 1);
    assert_eq!(ConnectionState::Connecting.code(), 2);
    assert_eq!(ConnectionState::Connected.code(), 3);
}
