//! The request and response exchange between two nodes.
//!
//! A request carries a notification to the peer: the protocol it belongs
//! to and its payload. A response carries a body of bytes, which is the
//! application's business; a notification is answered with an empty one.

use crate::protocol::ProtocolName;
use vstd::prelude::*;

verus! {

/// A request to a peer.
#[derive(Debug)]
pub enum P2pExecRequest {
    /// A notification on `protocol`, with its payload as it was handed
    /// over.
    Notification { protocol: ProtocolName, payload: Vec<u8> },
}

/// The response to a request.
#[derive(Debug)]
pub enum P2pExecResponse {
    /// A response of the application, as the bytes it was handed over in.
    Application { body: Vec<u8> },
}

impl P2pExecRequest {
    /// The name of the protocol of the request.
    pub open spec fn protocol(&self) -> Seq<char> {
        match self {
            P2pExecRequest::Notification { protocol, payload } => protocol@,
        }
    }

    /// The bytes of the request.
    pub open spec fn body(&self) -> Seq<u8> {
        match self {
            P2pExecRequest::Notification { protocol, payload } => payload@,
        }
    }
}

impl P2pExecResponse {
    /// The bytes of the response.
    pub open spec fn body(&self) -> Seq<u8> {
        match self {
            P2pExecResponse::Application { body } => body@,
        }
    }
}

impl Clone for P2pExecRequest {
    fn clone(&self) -> (copy: P2pExecRequest)
        ensures
            copy.protocol() == self.protocol(),
            copy.body() == self.body(),
    {
        match self {
            P2pExecRequest::Notification { protocol, payload } => {
                let bytes = payload.clone();
                assert(bytes@ =~= payload@);
                P2pExecRequest::Notification { protocol: protocol.clone(), payload: bytes }
            },
        }
    }
}

impl Clone for P2pExecResponse {
    fn clone(&self) -> (copy: P2pExecResponse)
        ensures
            copy.body() == self.body(),
    {
        match self {
            P2pExecResponse::Application { body } => {
                let bytes = body.clone();
                assert(bytes@ =~= body@);
                P2pExecResponse::Application { body: bytes }
            },
        }
    }
}

/// The codec of the exchange: it writes a message as one document and reads
/// a message from all that the peer sent. It has no state.
#[derive(Clone, Copy, Debug)]
pub struct P2pExecReqResCodec;

} // verus!
