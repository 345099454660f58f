use libp2p::identity::Keypair;
use p2p_engine::IdentityError;
use p2p_engine::IdentityKP;
use p2p_engine::KeyAlgorithm;

#[test]
fn test_identity_kp_save_load() {
    let initial_identity_kp = IdentityKP::new("ed25519").unwrap();
    println!("Initial Peer ID: {:?}", initial_identity_kp.peer_id());
    let saved = initial_identity_kp.to_protobuf();
    let loaded_identity_kp = IdentityKP::from_protobuf(&saved).expect("Failed to load keypair");
    println!("Loaded Peer ID: {:?}", loaded_identity_kp.peer_id());
    assert_eq!(initial_identity_kp.peer_id().0, loaded_identity_kp.peer_id().0);
    assert!(initial_identity_kp.peer_id().same_peer(&loaded_identity_kp.peer_id()));
}

#[test]
fn a_generated_identity_is_of_the_algorithm_asked_for() {
    let ed = IdentityKP::new("ed25519").unwrap();
    assert_eq!(ed.algorithm(), KeyAlgorithm::Ed25519);
    assert_eq!(ed.get_kp().key_type(), libp2p::identity::KeyType::Ed25519);
    let secp = IdentityKP::new("secp256k1").unwrap();
    assert_eq!(secp.algorithm(), KeyAlgorithm::Secp256k1);
    assert_eq!(secp.get_kp().key_type(), libp2p::identity::KeyType::Secp256k1);
}

#[test]
fn an_unsupported_algorithm_is_refused() {
    assert!(matches!(IdentityKP::new("rsa"), Err(IdentityError::UnsupportedAlgorithm)));
    assert!(matches!(IdentityKP::new(""), Err(IdentityError::UnsupportedAlgorithm)));
    assert!(matches!(IdentityKP::new("ED25519"), Err(IdentityError::UnsupportedAlgorithm)));
    assert!(matches!(IdentityKP::new("ed25519 "), Err(IdentityError::UnsupportedAlgorithm)));
}

#[test]
fn algorithm_names() {
    assert_eq!(KeyAlgorithm::from_name("ed25519"), Some(KeyAlgorithm::Ed25519));
    assert_eq!(KeyAlgorithm::from_name("secp256k1"), Some(KeyAlgorithm::Secp256k1));
    assert_eq!(KeyAlgorithm::from_name("ecdsa"), None);
    assert_eq!(KeyAlgorithm::from_name("secp256k"), None);
}

#[test]
fn the_peer_id_is_the_one_libp2p_derives_from_the_public_key() {
    let keypair = Keypair::generate_ed25519();
    let expected = keypair.public().to_peer_id().to_bytes();
    let identity = IdentityKP::from_keypair(&keypair, KeyAlgorithm::Ed25519).unwrap();
    assert_eq!(identity.peer_id().0, expected);
    assert_eq!(identity.get_pk(), keypair.public());
    assert_eq!(identity.get_kp().public(), keypair.public());
    assert_eq!(identity.to_protobuf(), keypair.to_protobuf_encoding().unwrap());
    assert_eq!(identity.peer_id().0, identity.peer_id().0);
}

#[test]
fn persisted_bytes_are_read_back_unchanged() {
    let keypair = Keypair::generate_secp256k1();
    let bytes = keypair.to_protobuf_encoding().unwrap();
    let identity = IdentityKP::from_protobuf(&bytes).unwrap();
    assert_eq!(identity.to_protobuf(), bytes);
    assert_eq!(identity.algorithm(), KeyAlgorithm::Secp256k1);
    assert_eq!(identity.peer_id().0, keypair.public().to_peer_id().to_bytes());
    let again = IdentityKP::from_protobuf(&identity.to_protobuf()).unwrap();
    assert_eq!(again.to_protobuf(), bytes);
    assert_eq!(again.peer_id().0, identity.peer_id().0);
    assert_eq!(again.algorithm(), identity.algorithm());
}

#[test]
fn bytes_that_are_no_keypair_are_refused() {
    assert!(matches!(IdentityKP::from_protobuf(&[]), Err(IdentityError::Decoding(_))));
    assert!(matches!(IdentityKP::from_protobuf(&[1, 2, 3]), Err(IdentityError::Decoding(_))));
    let mut bytes = Keypair::generate_ed25519().to_protobuf_encoding().unwrap();
    bytes.truncate(10);
    assert!(matches!(IdentityKP::from_protobuf(&bytes), Err(IdentityError::Decoding(_))));
}

#[test]
fn a_keypair_of_another_algorithm_than_expected_is_refused() {
    let keypair = Keypair::generate_ed25519();
    assert!(matches!(
        IdentityKP::from_keypair(&keypair, KeyAlgorithm::Secp256k1),
        Err(IdentityError::AlgorithmMismatch)
    ));
    assert!(matches!(
        IdentityKP::from_keypair(&keypair, KeyAlgorithm::Rsa),
        Err(IdentityError::AlgorithmMismatch)
    ));
    assert!(IdentityKP::from_keypair(&keypair, KeyAlgorithm::Ed25519).is_ok());
}

#[test]
fn two_generated_identities_differ() {
    let a = IdentityKP::new("ed25519").unwrap();
    let b = IdentityKP::new("ed25519").unwrap();
    assert!(!a.peer_id().same_peer(&b.peer_id()));
    assert_ne!(a.to_protobuf(), b.to_protobuf());
}

#[test]
fn supported_names_always_give_an_identity() {
    for _ in 0..20 {
        assert!(IdentityKP::new("ed25519").is_ok());
        assert!(IdentityKP::new("secp256k1").is_ok());
    }
}

#[test]
fn the_copy_of_the_keypair_and_the_public_key_belong_to_the_peer_id() {
    let identity = IdentityKP::new("secp256k1").unwrap();
    assert_eq!(identity.get_kp().public().to_peer_id().to_bytes(), identity.peer_id().0);
    assert_eq!(identity.get_pk().to_peer_id().to_bytes(), identity.peer_id().0);
    assert_eq!(identity.get_kp().to_protobuf_encoding().unwrap(), identity.to_protobuf());
}
