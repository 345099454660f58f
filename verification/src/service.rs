//! The handle through which backend events reach the rest of the node.

use crate::backend::NetworkBackendEvent;
use std::sync::mpsc::Sender;
use vstd::prelude::*;

verus! {

/// `std::sync::mpsc::Sender`: carried through, never looked into.
#[verifier::external_type_specification]
#[verifier::external_body]
#[verifier::reject_recursive_types(T)]
pub struct ExSender<T>(Sender<T>);

/// Holds the sending end of the channel that carries backend events.
pub struct NetworkService {
    sender: Sender<NetworkBackendEvent>,
}

impl NetworkService {
    /// The sending end that this service holds.
    pub closed spec fn sender(&self) -> Sender<NetworkBackendEvent> {
        self.sender
    }

    /// A service that sends on `sender`.
    pub fn new(sender: Sender<NetworkBackendEvent>) -> (service: NetworkService)
        ensures
            service.sender() == sender,
    {
        NetworkService { sender }
    }
}

} // verus!
