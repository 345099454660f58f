//! What a network backend offers to the layer above it.

use crate::peer::PeerId;
use crate::protocol::ProtocolName;
use std::task::Context;
use std::task::Poll;
use vstd::prelude::*;

verus! {

/// `std::task::Poll`, with its two variants as std declares them: `Ready`
/// with a value, and `Pending`.
#[verifier::external_type_specification]
#[verifier::reject_recursive_types(T)]
pub struct ExPoll<T>(Poll<T>);

/// `std::task::Context`: carried through, never looked into.
#[verifier::external_type_specification]
#[verifier::external_body]
pub struct ExContext<'a>(Context<'a>);

/// What a backend reports to the layer above it.
#[derive(Debug)]
pub enum NetworkBackendEvent {
    /// A notification stream to `remote` was opened on `protocol`.
    NotificationStreamOpen { remote: PeerId, protocol: ProtocolName },
    /// The notification stream to `remote` on `protocol` was closed.
    NotificationStreamClosed { remote: PeerId, protocol: ProtocolName, reason: String },
    /// `remote` sent `payload` on `protocol`.
    NotificationReceived { remote: PeerId, protocol: ProtocolName, payload: Vec<u8> },
}

/// A backend: a state machine that an outside loop drives by polling.
///
/// `poll` never blocks: it hands out an event that is ready, or says that
/// none is. `send_notification` queues a message for a peer and promises
/// nothing of its delivery. `local_peer_id` is the node's own identifier,
/// which is fixed when the backend is made.
pub trait NetworkBackend: Send {
    fn poll(&mut self, cx: &mut Context<'_>) -> Poll<NetworkBackendEvent>;

    fn send_notification(&mut self, target: PeerId, protocol: ProtocolName, payload: Vec<u8>);

    fn local_peer_id(&self) -> PeerId;
}

} // verus!
