use p2p_engine::engine::decimal_text;
use p2p_engine::engine::message_id;
use p2p_engine::engine::receive_request;
use p2p_engine::engine::request_for;
use p2p_engine::engine::classify;
use p2p_engine::engine::Disposition;
use p2p_engine::Command;
use p2p_engine::ConnectionEvent;
use p2p_engine::IdentityKP;
use p2p_engine::Libp2pBackend;
use p2p_engine::NetworkBackend;
use p2p_engine::NetworkBackendEvent;
use p2p_engine::P2pExecRequest;
use p2p_engine::P2pExecResponse;
use p2p_engine::PeerId;
use p2p_engine::ProtocolName;
use std::collections::hash_map::DefaultHasher;
use std::hash::Hash;
use std::hash::Hasher;
use std::task::Context;
use std::task::Poll;

fn backend() -> Libp2pBackend {
    Libp2pBackend::new(&IdentityKP::new("ed25519").unwrap())
}

fn poll(backend: &mut Libp2pBackend) -> Poll<NetworkBackendEvent> {
    let waker = futures::task::noop_waker();
    let mut cx = Context::from_waker(&waker);
    backend.poll(&mut cx)
}

fn peer(n: u8) -> PeerId {
    PeerId(vec![0, 1, n])
}

fn notification(from: u8, payload: &[u8]) -> ConnectionEvent {
    ConnectionEvent::Notification {
        peer: peer(from),
        protocol: ProtocolName::from_static("/test/1"),
        payload: payload.to_vec(),
    }
}

#[test]
fn an_idle_backend_answers_pending_again_and_again() {
    let mut backend = backend();
    for _ in 0..3 {
        assert!(matches!(poll(&mut backend), Poll::Pending));
        assert!(matches!(backend.poll_events(), Poll::Pending));
        assert!(backend.take_commands().is_empty());
    }
}

#[test]
fn the_local_peer_id_is_that_of_the_identity_and_does_not_change() {
    let identity = IdentityKP::new("secp256k1").unwrap();
    let mut backend = Libp2pBackend::new(&identity);
    assert_eq!(backend.local_peer_id().0, identity.peer_id().0);
    backend.report(notification(1, b"x"));
    backend.send_notification(peer(2), ProtocolName::from_static("/p"), vec![1]);
    let _ = poll(&mut backend);
    let _ = poll(&mut backend);
    let _ = backend.take_commands();
    assert_eq!(backend.local_peer_id().0, identity.peer_id().0);
}

#[test]
fn a_received_notification_surfaces_with_sender_protocol_and_payload() {
    let mut backend = backend();
    let sender = PeerId(vec![0, 36, 8, 1, 18, 32, 5]);
    backend.report(ConnectionEvent::Notification {
        peer: sender.clone(),
        protocol: ProtocolName::from_static("/test/1"),
        payload: b"ping".to_vec(),
    });
    match poll(&mut backend) {
        Poll::Ready(NetworkBackendEvent::NotificationReceived { remote, protocol, payload }) => {
            assert_eq!(payload, b"ping".to_vec());
            assert_eq!(protocol.as_ref(), "/test/1");
            assert!(remote.same_peer(&sender));
        },
        _ => panic!("the notification did not surface"),
    }
    assert!(matches!(poll(&mut backend), Poll::Pending));
}

#[test]
fn opened_and_closed_streams_surface_as_they_are() {
    let mut backend = backend();
    backend.report(ConnectionEvent::StreamOpened {
        peer: peer(4),
        protocol: ProtocolName::from_static("/a"),
    });
    backend.report(ConnectionEvent::StreamClosed {
        peer: peer(4),
        protocol: ProtocolName::from_static("/a"),
        reason: String::from("keep-alive timed out"),
    });
    match backend.poll_events() {
        Poll::Ready(NetworkBackendEvent::NotificationStreamOpen { remote, protocol }) => {
            assert_eq!(remote.0, vec![0, 1, 4]);
            assert_eq!(protocol.as_ref(), "/a");
        },
        _ => panic!("the opened stream did not surface"),
    }
    match backend.poll_events() {
        Poll::Ready(NetworkBackendEvent::NotificationStreamClosed { remote, protocol, reason }) => {
            assert_eq!(remote.0, vec![0, 1, 4]);
            assert_eq!(protocol.as_ref(), "/a");
            assert_eq!(reason, "keep-alive timed out");
        },
        _ => panic!("the closed stream did not surface"),
    }
    assert!(matches!(backend.poll_events(), Poll::Pending));
}

#[test]
fn identification_with_addresses_is_housekeeping_and_does_not_surface() {
    let mut backend = backend();
    backend.report(ConnectionEvent::Identified {
        peer: peer(7),
        listen_addrs: vec![vec![4, 127, 0, 0, 1, 6, 0, 80], vec![4, 10, 0, 0, 1, 6, 0, 81]],
    });
    assert!(matches!(poll(&mut backend), Poll::Pending));
    let commands = backend.take_commands();
    assert_eq!(commands.len(), 1);
    match &commands[0] {
        Command::AddAddresses { peer, addresses } => {
            assert_eq!(peer.0, vec![0, 1, 7]);
            assert_eq!(
                addresses,
                &vec![vec![4, 127, 0, 0, 1, 6, 0, 80], vec![4, 10, 0, 0, 1, 6, 0, 81]]
            );
        },
        _ => panic!("not a discovery update"),
    }
    assert!(backend.take_commands().is_empty());
}

#[test]
fn identification_without_addresses_and_unknown_events_are_ignored() {
    let mut backend = backend();
    backend.report(ConnectionEvent::Identified { peer: peer(7), listen_addrs: Vec::new() });
    backend.report(ConnectionEvent::Other);
    backend.report(ConnectionEvent::Other);
    assert!(matches!(poll(&mut backend), Poll::Pending));
    assert!(backend.take_commands().is_empty());
    assert!(matches!(poll(&mut backend), Poll::Pending));
}

#[test]
fn events_surface_in_the_order_of_the_reports() {
    let mut backend = backend();
    backend.report(ConnectionEvent::Other);
    backend.report(notification(1, b"first"));
    backend.report(ConnectionEvent::Identified { peer: peer(9), listen_addrs: vec![vec![1]] });
    backend.report(notification(2, b"second"));
    backend.report(ConnectionEvent::Identified { peer: peer(8), listen_addrs: vec![vec![2]] });

    match poll(&mut backend) {
        Poll::Ready(NetworkBackendEvent::NotificationReceived { remote, payload, .. }) => {
            assert_eq!(remote.0, vec![0, 1, 1]);
            assert_eq!(payload, b"first".to_vec());
        },
        _ => panic!("the first notification did not surface"),
    }
    assert!(backend.take_commands().is_empty());

    match poll(&mut backend) {
        Poll::Ready(NetworkBackendEvent::NotificationReceived { remote, payload, .. }) => {
            assert_eq!(remote.0, vec![0, 1, 2]);
            assert_eq!(payload, b"second".to_vec());
        },
        _ => panic!("the second notification did not surface"),
    }
    let commands = backend.take_commands();
    assert_eq!(commands.len(), 1);
    assert!(matches!(&commands[0], Command::AddAddresses { peer, .. } if peer.0 == vec![0, 1, 9]));

    assert!(matches!(poll(&mut backend), Poll::Pending));
    let commands = backend.take_commands();
    assert_eq!(commands.len(), 1);
    assert!(matches!(&commands[0], Command::AddAddresses { peer, .. } if peer.0 == vec![0, 1, 8]));
}

#[test]
fn send_notification_queues_a_command_for_the_driver() {
    let mut backend = backend();
    backend.send_notification(peer(3), ProtocolName::from_static("/test/1"), b"ping".to_vec());
    backend.send_notification(peer(4), ProtocolName::from_static("/test/2"), Vec::new());
    assert!(matches!(poll(&mut backend), Poll::Pending));
    let commands = backend.take_commands();
    assert_eq!(commands.len(), 2);
    match &commands[0] {
        Command::Notify { target, protocol, payload } => {
            assert_eq!(target.0, vec![0, 1, 3]);
            assert_eq!(protocol.as_ref(), "/test/1");
            assert_eq!(payload, &b"ping".to_vec());
        },
        _ => panic!("not a notification"),
    }
    match &commands[1] {
        Command::Notify { target, protocol, payload } => {
            assert_eq!(target.0, vec![0, 1, 4]);
            assert_eq!(protocol.as_ref(), "/test/2");
            assert!(payload.is_empty());
        },
        _ => panic!("not a notification"),
    }
    assert!(backend.take_commands().is_empty());
}

#[test]
fn what_one_node_sends_the_other_node_receives() {
    let alice_identity = IdentityKP::new("ed25519").unwrap();
    let bob_identity = IdentityKP::new("ed25519").unwrap();
    let mut alice = Libp2pBackend::new(&alice_identity);
    let mut bob = Libp2pBackend::new(&bob_identity);

    bob.report(ConnectionEvent::Other);
    bob.report(ConnectionEvent::Identified { peer: peer(5), listen_addrs: vec![vec![1]] });
    alice.send_notification(bob.local_peer_id(), ProtocolName::from_static("/test/1"), b"ping".to_vec());
    for command in alice.take_commands() {
        match command {
            Command::Notify { target, protocol, payload } => {
                assert!(target.same_peer(&bob.local_peer_id()));
                let request = request_for(protocol, payload);
                let (report, answer) = receive_request(alice.local_peer_id(), request);
                let P2pExecResponse::Application { body } = answer;
                assert!(body.is_empty());
                bob.report(report);
            },
            Command::AddAddresses { .. } => panic!("nothing was identified"),
        }
    }
    bob.report(ConnectionEvent::Other);

    match poll(&mut bob) {
        Poll::Ready(NetworkBackendEvent::NotificationReceived { remote, protocol, payload }) => {
            assert_eq!(payload, b"ping".to_vec());
            assert_eq!(protocol.as_ref(), "/test/1");
            assert!(remote.same_peer(&alice.local_peer_id()));
            assert_eq!(remote.0, alice_identity.peer_id().0);
        },
        _ => panic!("the notification did not arrive"),
    }
    assert!(matches!(poll(&mut bob), Poll::Pending));
    assert!(matches!(poll(&mut alice), Poll::Pending));
}

#[test]
fn classify_decides_for_each_kind_of_report() {
    assert!(matches!(classify(ConnectionEvent::Other), Disposition::Ignored));
    assert!(matches!(
        classify(ConnectionEvent::Identified { peer: peer(1), listen_addrs: Vec::new() }),
        Disposition::Ignored
    ));
    assert!(matches!(
        classify(ConnectionEvent::Identified { peer: peer(1), listen_addrs: vec![Vec::new()] }),
        Disposition::Housekeeping(Command::AddAddresses { .. })
    ));
    assert!(matches!(
        classify(notification(1, b"")),
        Disposition::Surface(NetworkBackendEvent::NotificationReceived { .. })
    ));
    assert!(matches!(
        classify(ConnectionEvent::StreamOpened { peer: peer(1), protocol: ProtocolName::from_static("/a") }),
        Disposition::Surface(NetworkBackendEvent::NotificationStreamOpen { .. })
    ));
    assert!(matches!(
        classify(ConnectionEvent::StreamClosed {
            peer: peer(1),
            protocol: ProtocolName::from_static("/a"),
            reason: String::new(),
        }),
        Disposition::Surface(NetworkBackendEvent::NotificationStreamClosed { .. })
    ));
}

#[test]
fn decimal_text_writes_numbers_without_leading_zeros() {
    assert_eq!(decimal_text(0), "0");
    assert_eq!(decimal_text(7), "7");
    assert_eq!(decimal_text(9), "9");
    assert_eq!(decimal_text(10), "10");
    assert_eq!(decimal_text(99), "99");
    assert_eq!(decimal_text(100), "100");
    assert_eq!(decimal_text(1234567890), "1234567890");
    assert_eq!(decimal_text(9007199254740993), "9007199254740993");
    assert_eq!(decimal_text(18446744073709551615), "18446744073709551615");
}

#[test]
fn the_message_id_is_the_digest_of_the_body_in_decimal() {
    for body in [b"".to_vec(), b"ping".to_vec(), vec![0u8; 300], vec![255, 0, 255]] {
        let mut s = DefaultHasher::new();
        body.hash(&mut s);
        assert_eq!(message_id(&body), s.finish().to_string());
    }
}

#[test]
fn equal_bodies_have_equal_message_ids_and_others_differ() {
    assert_eq!(message_id(b"block 1"), message_id(b"block 1"));
    assert_ne!(message_id(b"block 1"), message_id(b"block 2"));
    assert_ne!(message_id(b""), message_id(&[0]));
    assert_ne!(message_id(&[0]), message_id(&[0, 0]));
}

#[test]
fn a_request_carries_the_protocol_and_the_payload_of_the_notification() {
    let request = request_for(ProtocolName::from_static("/test/2"), vec![9, 8]);
    let P2pExecRequest::Notification { protocol, payload } = &request;
    assert_eq!(protocol.as_str(), "/test/2");
    assert_eq!(payload, &vec![9, 8]);
    let (report, answer) = receive_request(peer(6), request);
    match report {
        ConnectionEvent::Notification { peer, protocol, payload } => {
            assert_eq!(peer.0, vec![0, 1, 6]);
            assert_eq!(protocol.as_str(), "/test/2");
            assert_eq!(payload, vec![9, 8]);
        },
        _ => panic!("not a notification"),
    }
    let P2pExecResponse::Application { body } = answer;
    assert_eq!(body, Vec::<u8>::new());
}
