//! The node's identity: one keypair together with what is derived from it.
//!
//! Key generation, the protobuf encoding of keys and the derivation of peer
//! identifiers belong to `libp2p`. This module holds the plain values that
//! the rest of the engine reads (the persisted bytes, the algorithm and the
//! peer identifier) and keeps them consistent with each other.

use crate::peer::PeerId;
use libp2p::identity::DecodingError;
use libp2p::identity::KeyType;
use libp2p::identity::Keypair;
use libp2p::identity::PublicKey;
use vstd::prelude::*;

verus! {

/// `libp2p::identity::Keypair`: carried through, never looked into.
#[verifier::external_type_specification]
#[verifier::external_body]
pub struct ExKeypair(Keypair);

/// `libp2p::identity::PublicKey`: carried through, never looked into.
#[verifier::external_type_specification]
#[verifier::external_body]
pub struct ExPublicKey(PublicKey);

/// `libp2p::identity::DecodingError`: carried through, never looked into.
#[verifier::external_type_specification]
#[verifier::external_body]
pub struct ExDecodingError(DecodingError);

/// The signature algorithm of a keypair.
#[derive(Clone, Copy, Debug, PartialEq, Eq, Structural)]
pub enum KeyAlgorithm {
    Ed25519,
    Rsa,
    Secp256k1,
    Ecdsa,
}

/// Why an identity could not be built.
#[derive(Debug)]
pub enum IdentityError {
    /// The requested algorithm is not one that can be generated.
    UnsupportedAlgorithm,
    /// The keypair has no protobuf encoding.
    Encoding(DecodingError),
    /// The bytes are not the protobuf encoding of a keypair.
    Decoding(DecodingError),
    /// The keypair read back is of another algorithm than the one asked for.
    AlgorithmMismatch,
}

/// Whether `encoding` is the protobuf encoding of a keypair, as
/// `Keypair::from_protobuf_encoding` decides it.
pub uninterp spec fn keypair_decodes(encoding: Seq<u8>) -> bool;

/// The algorithm of the keypair that `encoding` decodes to, as
/// `Keypair::key_type` reports it.
pub uninterp spec fn encoded_algorithm(encoding: Seq<u8>) -> KeyAlgorithm;

/// The bytes of the peer identifier of the keypair that `encoding` decodes
/// to, as `PublicKey::to_peer_id` derives it from the public half.
pub uninterp spec fn encoded_peer_id(encoding: Seq<u8>) -> Seq<u8>;

/// The protobuf encoding of `keypair`, as `Keypair::to_protobuf_encoding`
/// gives it; `None` for a keypair that has none.
pub uninterp spec fn keypair_encoding(keypair: Keypair) -> Option<Seq<u8>>;

/// The bytes of the peer identifier of `keypair`: the one that
/// `PublicKey::to_peer_id` derives from its public half.
pub uninterp spec fn keypair_peer_id(keypair: Keypair) -> Seq<u8>;

/// The bytes of the peer identifier that `PublicKey::to_peer_id` derives
/// from `public`.
pub uninterp spec fn public_key_peer_id(public: PublicKey) -> Seq<u8>;

/// Whether `keypair` is persisted as the encoding of a keypair of algorithm
/// `algorithm`: it has an encoding, and the encoding decodes to a keypair
/// of that algorithm.
pub open spec fn persists_as(keypair: Keypair, algorithm: KeyAlgorithm) -> bool {
    keypair_encoding(keypair) matches Some(encoding) && keypair_decodes(encoding)
        && encoded_algorithm(encoding) == algorithm
}

/// The algorithm that a name selects for generation, if any.
pub open spec fn selected_algorithm(name: Seq<char>) -> Option<KeyAlgorithm> {
    if name == "ed25519"@ {
        Some(KeyAlgorithm::Ed25519)
    } else if name == "secp256k1"@ {
        Some(KeyAlgorithm::Secp256k1)
    } else {
        None
    }
}

/// Calls `Keypair::generate_ed25519`. The key is random. Whatever it is, it
/// has an encoding, and the encoding decodes to an Ed25519 keypair again.
#[verifier::external_body]
fn generate_ed25519() -> (keypair: Keypair)
    ensures
        persists_as(keypair, KeyAlgorithm::Ed25519),
{
    Keypair::generate_ed25519()
}

/// Calls `Keypair::generate_secp256k1`. The key is random. Whatever it is,
/// it has an encoding, and the encoding decodes to a secp256k1 keypair
/// again.
#[verifier::external_body]
fn generate_secp256k1() -> (keypair: Keypair)
    ensures
        persists_as(keypair, KeyAlgorithm::Secp256k1),
{
    Keypair::generate_secp256k1()
}

/// Calls `Keypair::to_protobuf_encoding`, which fails for keys that have no
/// such encoding. The outcome is the keypair's encoding, by its name.
#[verifier::external_body]
fn encode_keypair(keypair: &Keypair) -> (r: Result<Vec<u8>, DecodingError>)
    ensures
        match r {
            Ok(encoding) => keypair_encoding(*keypair) == Some(encoding@),
            Err(_) => keypair_encoding(*keypair) is None,
        },
{
    keypair.to_protobuf_encoding()
}

/// Calls `Keypair::from_protobuf_encoding` and reads from the keypair its
/// algorithm (`Keypair::key_type`) and the bytes of its peer identifier
/// (`Keypair::public`, `PublicKey::to_peer_id`, `PeerId::to_bytes`). All of
/// them are functions of the bytes alone; the contract gives each its name.
/// The bytes of the peer identifier are those of the keypair handed back.
#[verifier::external_body]
fn decode_identity(encoding: &[u8]) -> (r: Result<(Keypair, KeyAlgorithm, Vec<u8>), DecodingError>)
    ensures
        r is Ok <==> keypair_decodes(encoding@),
        r matches Ok(parts) ==> {
            &&& parts.1 == encoded_algorithm(encoding@)
            &&& parts.2@ == encoded_peer_id(encoding@)
            &&& parts.2@ == keypair_peer_id(parts.0)
        },
{
    let keypair = Keypair::from_protobuf_encoding(encoding)?;
    let algorithm = match keypair.key_type() {
        KeyType::Ed25519 => KeyAlgorithm::Ed25519,
        KeyType::RSA => KeyAlgorithm::Rsa,
        KeyType::Secp256k1 => KeyAlgorithm::Secp256k1,
        KeyType::Ecdsa => KeyAlgorithm::Ecdsa,
    };
    let peer = keypair.public().to_peer_id().to_bytes();
    Ok((keypair, algorithm, peer))
}

/// Calls `Keypair::clone`: the copy is the same keypair, with the same
/// encoding and the same peer identifier.
#[verifier::external_body]
fn clone_keypair(keypair: &Keypair) -> (copy: Keypair)
    ensures
        keypair_encoding(copy) == keypair_encoding(*keypair),
        keypair_peer_id(copy) == keypair_peer_id(*keypair),
{
    keypair.clone()
}

/// Calls `Keypair::public`: the public half, from which the keypair's peer
/// identifier is derived.
#[verifier::external_body]
fn public_half(keypair: &Keypair) -> (public: PublicKey)
    ensures
        public_key_peer_id(public) == keypair_peer_id(*keypair),
{
    keypair.public()
}

impl KeyAlgorithm {
    /// The algorithm that `name` selects: `"ed25519"` or `"secp256k1"`.
    pub fn from_name(name: &str) -> (algorithm: Option<KeyAlgorithm>)
        ensures
            algorithm == selected_algorithm(name@),
    {
        let wanted = name.to_owned();
        if wanted == "ed25519".to_owned() {
            Some(KeyAlgorithm::Ed25519)
        } else if wanted == "secp256k1".to_owned() {
            Some(KeyAlgorithm::Secp256k1)
        } else {
            None
        }
    }
}

/// A keypair, the bytes it is persisted as, its algorithm and the peer
/// identifier derived from its public half. Nothing changes after creation.
pub struct IdentityKP {
    keypair: Keypair,
    algorithm: KeyAlgorithm,
    encoding: Vec<u8>,
    peer_id: PeerId,
}

impl IdentityKP {
    /// The keypair of this identity.
    pub closed spec fn keypair(&self) -> Keypair {
        self.keypair
    }

    /// The bytes this identity is persisted as.
    pub closed spec fn encoding(&self) -> Seq<u8> {
        self.encoding@
    }

    /// The algorithm of the keypair.
    pub closed spec fn algorithm_spec(&self) -> KeyAlgorithm {
        self.algorithm
    }

    /// The bytes of the peer identifier.
    pub closed spec fn peer_id_spec(&self) -> Seq<u8> {
        self.peer_id@
    }

    /// The algorithm and the peer identifier are those of the keypair that
    /// the persisted bytes decode to, and the peer identifier is that of
    /// the keypair held.
    pub open spec fn wf(&self) -> bool {
        &&& keypair_decodes(self.encoding())
        &&& self.algorithm_spec() == encoded_algorithm(self.encoding())
        &&& self.peer_id_spec() == encoded_peer_id(self.encoding())
        &&& self.peer_id_spec() == keypair_peer_id(self.keypair())
    }

    #[verifier::type_invariant]
    spec fn consistent(&self) -> bool {
        self.wf()
    }

    /// Generates a fresh identity of the algorithm that `encr_type` names.
    ///
    /// A name other than `"ed25519"` and `"secp256k1"` is refused, and no
    /// other: for these two the call succeeds. The key comes from `libp2p`;
    /// it is encoded and read back, so that what is returned is consistent
    /// and of the algorithm asked for.
    pub fn new(encr_type: &str) -> (r: Result<IdentityKP, IdentityError>)
        ensures
            selected_algorithm(encr_type@) is Some <==> r is Ok,
            selected_algorithm(encr_type@) is None <==> r matches Err(
                IdentityError::UnsupportedAlgorithm,
            ),
            r matches Ok(id) ==> id.wf() && selected_algorithm(encr_type@) == Some(
                id.algorithm_spec(),
            ),
    {
        match KeyAlgorithm::from_name(encr_type) {
            None => Err(IdentityError::UnsupportedAlgorithm),
            Some(algorithm) => {
                let keypair = match algorithm {
                    KeyAlgorithm::Ed25519 => generate_ed25519(),
                    _ => generate_secp256k1(),
                };
                Self::from_keypair(&keypair, algorithm)
            },
        }
    }

    /// The identity of `keypair`, provided that it is of algorithm
    /// `expected`: the keypair is encoded and the encoding read back.
    ///
    /// Succeeds exactly when the keypair has an encoding that decodes to a
    /// keypair of the expected algorithm. The identity then holds that
    /// encoding. Else the error says what was in the way: no encoding, an
    /// encoding that does not decode, or another algorithm.
    pub fn from_keypair(keypair: &Keypair, expected: KeyAlgorithm) -> (r: Result<
        IdentityKP,
        IdentityError,
    >)
        ensures
            r is Ok <==> persists_as(*keypair, expected),
            r matches Ok(id) ==> {
                &&& id.wf()
                &&& id.algorithm_spec() == expected
                &&& keypair_encoding(*keypair) == Some(id.encoding())
            },
            r matches Err(e) ==> match keypair_encoding(*keypair) {
                None => e is Encoding,
                Some(encoding) => if keypair_decodes(encoding) {
                    e is AlgorithmMismatch
                } else {
                    e is Decoding
                },
            },
    {
        match encode_keypair(keypair) {
            Err(e) => Err(IdentityError::Encoding(e)),
            Ok(encoding) => Self::checked(encoding, Some(expected)),
        }
    }

    /// Reads an identity from its persisted bytes.
    ///
    /// Succeeds exactly on the bytes that decode to a keypair; the identity
    /// then holds these very bytes, so that persisting it again is lossless.
    pub fn from_protobuf(encoding: &[u8]) -> (r: Result<IdentityKP, IdentityError>)
        ensures
            r is Ok <==> keypair_decodes(encoding@),
            r matches Ok(id) ==> id.wf() && id.encoding() == encoding@,
            r matches Err(e) ==> e is Decoding,
    {
        let owned = vstd::slice::slice_to_vec(encoding);
        Self::checked(owned, None)
    }

    /// Decodes `encoding` and builds the identity from what `libp2p` reads
    /// out of it, unless an expected algorithm is given and it is another.
    fn checked(encoding: Vec<u8>, expected: Option<KeyAlgorithm>) -> (r: Result<
        IdentityKP,
        IdentityError,
    >)
        ensures
            r is Ok <==> keypair_decodes(encoding@) && (expected matches Some(a) ==> a
                == encoded_algorithm(encoding@)),
            r matches Ok(id) ==> id.wf() && id.encoding() == encoding@,
            r matches Err(e) ==> if keypair_decodes(encoding@) {
                e is AlgorithmMismatch
            } else {
                e is Decoding
            },
    {
        match decode_identity(encoding.as_slice()) {
            Err(e) => Err(IdentityError::Decoding(e)),
            Ok((keypair, algorithm, peer)) => {
                let agrees = match expected {
                    None => true,
                    Some(wanted) => wanted == algorithm,
                };
                if agrees {
                    Ok(IdentityKP { keypair, algorithm, encoding, peer_id: PeerId(peer) })
                } else {
                    Err(IdentityError::AlgorithmMismatch)
                }
            },
        }
    }

    /// The bytes to persist this identity as.
    pub fn to_protobuf(&self) -> (encoding: Vec<u8>)
        ensures
            encoding@ == self.encoding(),
            self.wf(),
    {
        proof {
            use_type_invariant(self);
        }
        let encoding = self.encoding.clone();
        assert(encoding@ =~= self.encoding@);
        encoding
    }

    /// The algorithm of the keypair.
    pub fn algorithm(&self) -> (algorithm: KeyAlgorithm)
        ensures
            algorithm == self.algorithm_spec(),
    {
        self.algorithm
    }

    /// A copy of the keypair of this identity: it has the encoding of that
    /// keypair and the peer identifier of this identity.
    pub fn get_kp(&self) -> (copy: Keypair)
        ensures
            keypair_encoding(copy) == keypair_encoding(self.keypair()),
            keypair_peer_id(copy) == keypair_peer_id(self.keypair()),
            keypair_peer_id(copy) == self.peer_id_spec(),
    {
        proof {
            use_type_invariant(self);
        }
        clone_keypair(&self.keypair)
    }

    /// The public half of the keypair of this identity: the key that the
    /// peer identifier of this identity is derived from.
    pub fn get_pk(&self) -> (public: PublicKey)
        ensures
            public_key_peer_id(public) == keypair_peer_id(self.keypair()),
            public_key_peer_id(public) == self.peer_id_spec(),
    {
        proof {
            use_type_invariant(self);
        }
        public_half(&self.keypair)
    }

    /// The peer identifier, as it was derived when the identity was made.
    pub fn peer_id(&self) -> (id: PeerId)
        ensures
            id@ == self.peer_id_spec(),
            self.wf(),
    {
        proof {
            use_type_invariant(self);
        }
        self.peer_id.clone()
    }
}

/// An identity that is persisted and read again is the same identity: two
/// consistent identities with the same persisted bytes have the same
/// algorithm and the same peer identifier.
pub proof fn lemma_persisted_identity_is_lossless(saved: IdentityKP, loaded: IdentityKP)
    requires
        saved.wf(),
        loaded.wf(),
        loaded.encoding() == saved.encoding(),
    ensures
        loaded.algorithm_spec() == saved.algorithm_spec(),
        loaded.peer_id_spec() == saved.peer_id_spec(),
{
}

} // verus!
