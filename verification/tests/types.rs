use p2p_engine::message::execution::ExecutionTask;
use p2p_engine::P2pExecReqResCodec;
use p2p_engine::P2pExecRequest;
use p2p_engine::P2pExecResponse;
use p2p_engine::PeerId;
use p2p_engine::ProtocolName;

#[test]
fn check_execution_msg() {
    let msg = ExecutionTask { id: 1 };
    assert!(msg.id == 1);
}

#[test]
fn protocol_name() {
    let p = "/exec/req/1";
    let req_protocol: ProtocolName = p.into();
    assert_eq!(req_protocol.as_ref(), p);
}

#[test]
fn protocol_name_from_static_keeps_the_text() {
    let protocol = ProtocolName::from_static("/test/1");
    assert_eq!(protocol.as_str(), "/test/1");
    assert_eq!(protocol.as_ref(), "/test/1");
}

#[test]
fn protocol_names_compare_by_text_not_by_storage() {
    let borrowed = ProtocolName::from_static("/gossip/blocks");
    let owned = ProtocolName::from_owned(String::from("/gossip/blocks"));
    let other = ProtocolName::from_owned(String::from("/gossip/votes"));
    assert!(borrowed.same_protocol(&owned));
    assert!(owned.same_protocol(&borrowed));
    assert!(!borrowed.same_protocol(&other));
    assert_eq!(borrowed, owned);
    assert_ne!(borrowed, other);
}

#[test]
fn protocol_name_clone_is_the_same_protocol() {
    let owned = ProtocolName::from_owned(String::from("/req/1"));
    let copy = owned.clone();
    assert!(copy.same_protocol(&owned));
    assert_eq!(copy.as_str(), "/req/1");
    let empty = ProtocolName::from_static("");
    assert_eq!(empty.clone().as_str(), "");
}

#[test]
fn peer_ids_compare_by_bytes() {
    let a = PeerId(vec![0, 36, 8, 1]);
    let b = PeerId(vec![0, 36, 8, 1]);
    let c = PeerId(vec![0, 36, 8, 2]);
    let shorter = PeerId(vec![0, 36, 8]);
    let empty = PeerId(Vec::new());
    assert!(a.same_peer(&b));
    assert!(!a.same_peer(&c));
    assert!(!a.same_peer(&shorter));
    assert!(!shorter.same_peer(&a));
    assert!(empty.same_peer(&PeerId(Vec::new())));
    assert!(!empty.same_peer(&a));
}

#[test]
fn peer_id_clone_has_the_same_bytes() {
    let a = PeerId(vec![18, 32, 7, 7, 7]);
    let copy = a.clone();
    assert_eq!(copy.0, vec![18, 32, 7, 7, 7]);
    assert!(copy.same_peer(&a));
}

#[test]
fn request_and_response_clone_keep_their_bodies() {
    let request = P2pExecRequest::Notification {
        protocol: ProtocolName::from_static("/test/1"),
        payload: vec![1, 2, 3],
    };
    let P2pExecRequest::Notification { protocol, payload } = request.clone();
    assert_eq!(protocol.as_str(), "/test/1");
    assert_eq!(payload, vec![1, 2, 3]);
    let response = P2pExecResponse::Application { body: Vec::new() };
    let P2pExecResponse::Application { body } = response.clone();
    assert_eq!(body, Vec::<u8>::new());
    let codec = P2pExecReqResCodec;
    let _copy = codec;
    let _again = codec.clone();
}

#[test]
fn a_service_takes_the_sending_end_of_a_channel() {
    let (sender, receiver) = std::sync::mpsc::channel::<p2p_engine::NetworkBackendEvent>();
    let _service = p2p_engine::NetworkService::new(sender);
    assert!(receiver.try_recv().is_err());
}
