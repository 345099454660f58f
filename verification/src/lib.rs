//! A peer-to-peer network engine: identity, transport composition, a
//! poll-driven backend state machine, a type-keyed event bus and the
//! dispatcher that feeds it.

pub mod backend;
pub mod bus;
pub mod engine;
pub mod identity;
pub mod message;
pub mod messaging;
pub mod peer;
pub mod protocol;
pub mod protocol_dispatcher;
pub mod service;
pub mod transport;
pub mod worker;

pub use backend::NetworkBackend;
pub use backend::NetworkBackendEvent;
pub use bus::BusError;
pub use bus::EventBus;
pub use bus::Registry;
pub use engine::Command;
pub use engine::ConnectionEvent;
pub use engine::Libp2pBackend;
pub use identity::IdentityError;
pub use identity::IdentityKP;
pub use identity::KeyAlgorithm;
pub use message::execution::ExecutionTask;
pub use messaging::P2pExecReqResCodec;
pub use messaging::P2pExecRequest;
pub use messaging::P2pExecResponse;
pub use peer::PeerId;
pub use protocol::ProtocolName;
pub use protocol_dispatcher::DispatchOutcome;
pub use protocol_dispatcher::Dispatcher;
pub use protocol_dispatcher::TypedDispatcher;
pub use protocol_dispatcher::WireMessage;
pub use service::NetworkService;
pub use transport::FinalTransport;
pub use transport::TransportBuilder;
pub use transport::TransportError;
pub use transport::TransportKind;
pub use worker::NetworkWorker;
