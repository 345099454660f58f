//! Composition of the transports a node dials and listens with.
//!
//! Each enabled transport is built by `libp2p`; this module decides which
//! are built, in which order they are tried, and when there is nothing to
//! build. The order is fixed: TCP, then QUIC, then WebSocket.

use crate::identity::keypair_peer_id;
use crate::identity::IdentityKP;
use libp2p::identity::Keypair;
use libp2p::PeerId as RemotePeer;
use libp2p::Transport;
use vstd::prelude::*;

verus! {

/// `libp2p::PeerId`, the identifier that a connection yields: carried
/// through, never looked into.
#[verifier::external_type_specification]
#[verifier::external_body]
pub struct ExRemotePeer(RemotePeer);

/// `libp2p::core::muxing::StreamMuxerBox`: carried through, never looked
/// into.
#[verifier::external_type_specification]
#[verifier::external_body]
pub struct ExStreamMuxerBox(libp2p::core::muxing::StreamMuxerBox);

/// `libp2p::core::transport::Boxed`: a transport behind a box. What it is
/// composed of has a name, [`transport_stack`]; nothing else is known of it.
#[verifier::external_type_specification]
#[verifier::external_body]
#[verifier::reject_recursive_types(O)]
pub struct ExBoxed<O>(libp2p::core::transport::Boxed<O>);

/// `libp2p::noise::Config`: carried through, never looked into.
#[verifier::external_type_specification]
#[verifier::external_body]
pub struct ExNoiseConfig(libp2p::noise::Config);

/// `libp2p::noise::Error`: carried through, never looked into.
#[verifier::external_type_specification]
#[verifier::external_body]
pub struct ExNoiseError(libp2p::noise::Error);

/// The composite transport: every connection it yields carries the verified
/// identifier of the remote peer and a stream multiplexer.
pub type FinalTransport = libp2p::core::transport::Boxed<
    (RemotePeer, libp2p::core::muxing::StreamMuxerBox),
>;

/// One of the transports that can be enabled.
#[derive(Clone, Copy, Debug, PartialEq, Eq, Structural)]
pub enum TransportKind {
    Tcp,
    Quic,
    WebSocket,
}

/// Why no transport was built.
#[derive(Debug)]
pub enum TransportError {
    /// No transport is enabled: there is nothing to dial or listen with.
    NoTransportEnabled,
    /// The authenticated handshake could not be set up with the node's key.
    Handshake(libp2p::noise::Error),
}

/// The transports that a composite transport tries for an address, first
/// to last: what it was composed of.
pub uninterp spec fn transport_stack(transport: FinalTransport) -> Seq<TransportKind>;

/// The bytes of the peer identifier of the key that `handshake` was made
/// with: the node that a handshake with this configuration authenticates.
pub uninterp spec fn handshake_identity(handshake: libp2p::noise::Config) -> Seq<u8>;

/// The bytes of the peer identifier of the key that `transport` was secured
/// with: the node that its connections authenticate.
pub uninterp spec fn transport_identity(transport: FinalTransport) -> Seq<u8>;

/// The transports to compose for the given toggles, in the order in which
/// they are tried.
pub open spec fn composition(tcp: bool, quic: bool, ws: bool) -> Seq<TransportKind> {
    let first = if tcp {
        seq![TransportKind::Tcp]
    } else {
        Seq::<TransportKind>::empty()
    };
    let second = if quic {
        seq![TransportKind::Quic]
    } else {
        Seq::<TransportKind>::empty()
    };
    let third = if ws {
        seq![TransportKind::WebSocket]
    } else {
        Seq::<TransportKind>::empty()
    };
    first + second + third
}

/// Calls `noise::Config::new`, which draws a fresh Diffie-Hellman key and
/// signs it with the node's key. It fails where signing fails, and nowhere
/// else; the keys that this build has, Ed25519 and secp256k1, always sign.
/// So it succeeds, and the configuration is made with `keypair`.
#[verifier::external_body]
fn handshake_config(keypair: &Keypair) -> (r: Result<libp2p::noise::Config, libp2p::noise::Error>)
    ensures
        r is Ok,
        r matches Ok(handshake) ==> handshake_identity(handshake) == keypair_peer_id(*keypair),
{
    libp2p::noise::Config::new(keypair)
}

/// Builds the TCP transport: `tcp::tokio::Transport::new`, upgraded
/// (`Transport::upgrade`) with the noise handshake (`authenticate`) and the
/// yamux multiplexer (`multiplex`), then boxed (`Transport::map`,
/// `Transport::boxed`). The result tries TCP and nothing else.
#[verifier::external_body]
fn tcp_transport(handshake: libp2p::noise::Config) -> (transport: FinalTransport)
    ensures
        transport_stack(transport) == seq![TransportKind::Tcp],
        transport_identity(transport) == handshake_identity(handshake),
{
    libp2p::tcp::tokio::Transport::new(libp2p::tcp::Config::default())
        .upgrade(libp2p::core::upgrade::Version::V1)
        .authenticate(handshake)
        .multiplex(libp2p::yamux::Config::default())
        .map(|(peer, muxer), _| (peer, libp2p::core::muxing::StreamMuxerBox::new(muxer)))
        .boxed()
}

/// Builds the QUIC transport (`quic::Config::new`,
/// `quic::tokio::Transport::new`), which brings its own encryption and
/// multiplexing, and boxes it (`Transport::map`, `Transport::boxed`). The
/// result tries QUIC and nothing else.
/// `quic::Config::new` sets up TLS with a certificate that the node's key
/// signs, and does not return where signing fails; the keys that this build
/// has, Ed25519 and secp256k1, always sign.
#[verifier::external_body]
fn quic_transport(keypair: &Keypair) -> (transport: FinalTransport)
    ensures
        transport_stack(transport) == seq![TransportKind::Quic],
        transport_identity(transport) == keypair_peer_id(*keypair),
{
    libp2p::quic::tokio::Transport::new(libp2p::quic::Config::new(keypair))
        .map(|(peer, connection), _| (peer, libp2p::core::muxing::StreamMuxerBox::new(connection)))
        .boxed()
}

/// Builds the WebSocket transport over TCP: `websocket::Config::new` on
/// `tcp::tokio::Transport::new`, upgraded (`Transport::upgrade`) with the
/// noise handshake (`authenticate`) and the yamux multiplexer
/// (`multiplex`), then boxed (`Transport::map`, `Transport::boxed`). The
/// result tries WebSocket and nothing else.
#[verifier::external_body]
fn ws_transport(handshake: libp2p::noise::Config) -> (transport: FinalTransport)
    ensures
        transport_stack(transport) == seq![TransportKind::WebSocket],
        transport_identity(transport) == handshake_identity(handshake),
{
    let tcp = libp2p::tcp::tokio::Transport::new(libp2p::tcp::Config::default());
    libp2p::websocket::Config::new(tcp)
        .upgrade(libp2p::core::upgrade::Version::V1)
        .authenticate(handshake)
        .multiplex(libp2p::yamux::Config::default())
        .map(|(peer, muxer), _| (peer, libp2p::core::muxing::StreamMuxerBox::new(muxer)))
        .boxed()
}

/// Calls `Transport::or_transport` and boxes the result (`Transport::map`,
/// `Transport::boxed`): it hands an address to `first` and, where `first`
/// does not support it, to `second`. So it tries what `first` tries, then
/// what `second` tries.
#[verifier::external_body]
fn fallback(first: FinalTransport, second: FinalTransport) -> (transport: FinalTransport)
    ensures
        transport_stack(transport) == transport_stack(first) + transport_stack(second),
        transport_identity(first) == transport_identity(second) ==> transport_identity(transport)
            == transport_identity(first),
{
    first.or_transport(second)
        .map(|either, _| match either {
            futures::future::Either::Left(output) => output,
            futures::future::Either::Right(output) => output,
        })
        .boxed()
}

/// Which transports to build, and the identity to secure them with.
pub struct TransportBuilder {
    pub keypair: IdentityKP,
    pub enable_tcp: bool,
    pub enable_ws: bool,
    pub enable_quic: bool,
}

impl TransportBuilder {
    /// The transports that `build` composes, in the order in which they are
    /// tried.
    pub open spec fn plan(&self) -> Seq<TransportKind> {
        composition(self.enable_tcp, self.enable_quic, self.enable_ws)
    }

    /// A builder with TCP enabled and nothing else.
    pub fn new(keypair: IdentityKP) -> (builder: TransportBuilder)
        ensures
            builder.keypair == keypair,
            builder.enable_tcp,
            !builder.enable_ws,
            !builder.enable_quic,
    {
        TransportBuilder { keypair, enable_tcp: true, enable_ws: false, enable_quic: false }
    }

    /// Enables or disables TCP.
    pub fn with_tcp(self, enable: bool) -> (builder: TransportBuilder)
        ensures
            builder.enable_tcp == enable,
            builder.enable_ws == self.enable_ws,
            builder.enable_quic == self.enable_quic,
            builder.keypair == self.keypair,
    {
        let mut builder = self;
        builder.enable_tcp = enable;
        builder
    }

    /// Enables or disables WebSocket over TCP.
    pub fn with_ws(self, enable: bool) -> (builder: TransportBuilder)
        ensures
            builder.enable_ws == enable,
            builder.enable_tcp == self.enable_tcp,
            builder.enable_quic == self.enable_quic,
            builder.keypair == self.keypair,
    {
        let mut builder = self;
        builder.enable_ws = enable;
        builder
    }

    /// Enables or disables QUIC.
    pub fn with_quic(self, enable: bool) -> (builder: TransportBuilder)
        ensures
            builder.enable_quic == enable,
            builder.enable_tcp == self.enable_tcp,
            builder.enable_ws == self.enable_ws,
            builder.keypair == self.keypair,
    {
        let mut builder = self;
        builder.enable_quic = enable;
        builder
    }

    /// The enabled transports, in the order in which they are tried.
    pub fn enabled(&self) -> (kinds: Vec<TransportKind>)
        ensures
            kinds@ == self.plan(),
    {
        let mut kinds: Vec<TransportKind> = Vec::new();
        if self.enable_tcp {
            kinds.push(TransportKind::Tcp);
        }
        if self.enable_quic {
            kinds.push(TransportKind::Quic);
        }
        if self.enable_ws {
            kinds.push(TransportKind::WebSocket);
        }
        assert(kinds@ =~= self.plan());
        kinds
    }

    /// Composes the enabled transports into one, secured with the key of
    /// this builder's identity.
    ///
    /// With no transport enabled there is nothing to build: that is the
    /// error `NoTransportEnabled`, and the only input on which it comes.
    /// With any transport enabled the call succeeds, and the result tries
    /// exactly the enabled transports, TCP first, then QUIC, then WebSocket.
    pub fn build(self) -> (r: Result<FinalTransport, TransportError>)
        ensures
            self.plan().len() == 0 <==> r matches Err(TransportError::NoTransportEnabled),
            self.plan().len() > 0 <==> r is Ok,
            self.enable_tcp || self.enable_quic || self.enable_ws <==> r is Ok,
            r matches Ok(transport) ==> {
                &&& transport_stack(transport) == self.plan()
                &&& transport_identity(transport) == self.keypair.peer_id_spec()
            },
    {
        let keypair = self.keypair.get_kp();
        let tcp = if self.enable_tcp {
            Some(handshake_config(&keypair))
        } else {
            None
        };
        let ws = if self.enable_ws {
            Some(handshake_config(&keypair))
        } else {
            None
        };
        proof {
            lemma_composition_order(self.enable_tcp, self.enable_quic, self.enable_ws);
        }
        assemble(&keypair, tcp, self.enable_quic, ws)
    }
}

/// Whether the handshake that was asked for, if any, was set up.
pub open spec fn handshake_ready(
    asked: Option<Result<libp2p::noise::Config, libp2p::noise::Error>>,
) -> bool {
    !(asked matches Some(Err(_)))
}

/// Whether the handshake that was asked for, if any, was made with
/// `keypair`.
pub open spec fn handshake_made_with(
    asked: Option<Result<libp2p::noise::Config, libp2p::noise::Error>>,
    keypair: Keypair,
) -> bool {
    asked matches Some(Ok(handshake)) ==> handshake_identity(handshake) == keypair_peer_id(keypair)
}

/// Composes the transports that were asked for, given what came of setting
/// up the handshake of each: `tcp` and `ws` hold the outcome for TCP and for
/// WebSocket, or `None` where the transport is not asked for, and `quic`
/// says whether QUIC is.
///
/// With nothing asked for there is nothing to build: `NoTransportEnabled`.
/// Where a handshake that was asked for failed, the error is `Handshake`
/// with its error, that of TCP before that of WebSocket. Else the call
/// succeeds: the result tries exactly the transports asked for, TCP first,
/// then QUIC, then WebSocket, and it is secured with `keypair` if the
/// handshakes were made with it.
pub fn assemble(
    keypair: &Keypair,
    tcp: Option<Result<libp2p::noise::Config, libp2p::noise::Error>>,
    quic: bool,
    ws: Option<Result<libp2p::noise::Config, libp2p::noise::Error>>,
) -> (r: Result<FinalTransport, TransportError>)
    ensures
        (tcp is None && !quic && ws is None) <==> r matches Err(
            TransportError::NoTransportEnabled,
        ),
        !(handshake_ready(tcp) && handshake_ready(ws)) <==> r matches Err(
            TransportError::Handshake(_),
        ),
        tcp matches Some(Err(e)) ==> r == Err::<FinalTransport, TransportError>(
            TransportError::Handshake(e),
        ),
        ws matches Some(Err(e)) ==> (handshake_ready(tcp) ==> r == Err::<
            FinalTransport,
            TransportError,
        >(TransportError::Handshake(e))),
        r matches Ok(transport) ==> {
            &&& transport_stack(transport) == composition(tcp is Some, quic, ws is Some)
            &&& (handshake_made_with(tcp, *keypair) && handshake_made_with(ws, *keypair)
                ==> transport_identity(transport) == keypair_peer_id(*keypair))
        },
{
    let mut composed: Option<FinalTransport> = None;
    match tcp {
        Some(Err(e)) => {
            return Err(TransportError::Handshake(e));
        },
        Some(Ok(handshake)) => {
            composed = Some(tcp_transport(handshake));
        },
        None => {},
    }
    let ws_handshake = match ws {
        Some(Err(e)) => {
            return Err(TransportError::Handshake(e));
        },
        Some(Ok(handshake)) => Some(handshake),
        None => None,
    };
    if quic {
        composed = Some(compose(composed, quic_transport(keypair)));
    }
    match ws_handshake {
        Some(handshake) => {
            composed = Some(compose(composed, ws_transport(handshake)));
        },
        None => {},
    }
    match composed {
        Some(transport) => Ok(transport),
        None => Err(TransportError::NoTransportEnabled),
    }
}

/// What a composite tries: nothing where there is none yet.
pub open spec fn stack_so_far(composed: Option<FinalTransport>) -> Seq<TransportKind> {
    match composed {
        Some(transport) => transport_stack(transport),
        None => Seq::<TransportKind>::empty(),
    }
}

/// Whether what was composed so far, if anything, is secured with the key
/// of this peer identifier.
pub open spec fn secured_so_far(composed: Option<FinalTransport>, identity: Seq<u8>) -> bool {
    composed matches Some(transport) ==> transport_identity(transport) == identity
}

/// Adds `next` behind what was composed so far.
fn compose(composed: Option<FinalTransport>, next: FinalTransport) -> (transport: FinalTransport)
    ensures
        transport_stack(transport) == stack_so_far(composed) + transport_stack(next),
        secured_so_far(composed, transport_identity(next)) ==> transport_identity(transport)
            == transport_identity(next),
{
    match composed {
        Some(first) => fallback(first, next),
        None => {
            assert(Seq::<TransportKind>::empty() + transport_stack(next) =~= transport_stack(next));
            next
        },
    }
}

/// With no transport enabled nothing is composed, and with exactly one the
/// composite consists of that transport alone.
pub proof fn lemma_composition_of_single_toggles()
    ensures
        composition(false, false, false).len() == 0,
        composition(true, false, false) == seq![TransportKind::Tcp],
        composition(false, true, false) == seq![TransportKind::Quic],
        composition(false, false, true) == seq![TransportKind::WebSocket],
{
    assert(composition(true, false, false) =~= seq![TransportKind::Tcp]);
    assert(composition(false, true, false) =~= seq![TransportKind::Quic]);
    assert(composition(false, false, true) =~= seq![TransportKind::WebSocket]);
}

/// The order of the composite is TCP, then QUIC, then WebSocket, whatever
/// the order in which the toggles were set: each enabled transport stands
/// before every enabled transport that is declared after it.
pub proof fn lemma_composition_order(tcp: bool, quic: bool, ws: bool)
    ensures
        forall|i: int, j: int|
            0 <= i < j < composition(tcp, quic, ws).len() ==> rank(
                #[trigger] composition(tcp, quic, ws)[i],
            ) < rank(#[trigger] composition(tcp, quic, ws)[j]),
        composition(tcp, quic, ws).contains(TransportKind::Tcp) <==> tcp,
        composition(tcp, quic, ws).contains(TransportKind::Quic) <==> quic,
        composition(tcp, quic, ws).contains(TransportKind::WebSocket) <==> ws,
{
    let all = composition(tcp, quic, ws);
    if tcp {
        assert(all[0] == TransportKind::Tcp);
    }
    if quic {
        assert(all[if tcp { 1int } else { 0int }] == TransportKind::Quic);
    }
    if ws {
        assert(all[all.len() - 1] == TransportKind::WebSocket);
    }
}

/// The place of a transport in the fixed order of fallback.
pub open spec fn rank(kind: TransportKind) -> int {
    match kind {
        TransportKind::Tcp => 0,
        TransportKind::Quic => 1,
        TransportKind::WebSocket => 2,
    }
}

} // verus!
