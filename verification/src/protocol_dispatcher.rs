//! From raw payloads to typed events on the bus.
//!
//! A dispatcher is bound to one message type. It decodes a payload from
//! the wire format of that type and publishes what came out; a payload
//! that does not decode is dropped. The wire format is SCALE, as
//! `parity_scale_codec` reads it.

use crate::bus::EventBus;
use std::marker::PhantomData;
use vstd::prelude::*;

verus! {

/// What the bytes of `payload` decode to as a SCALE string, as
/// `<String as parity_scale_codec::Decode>::decode` reads it from the front
/// of the payload; `None` where it fails.
pub uninterp spec fn scale_text(payload: Seq<u8>) -> Option<Seq<char>>;

/// Calls `<String as parity_scale_codec::Decode>::decode` on the payload.
/// The outcome is a function of the bytes alone; the contract gives it its
/// name.
#[verifier::external_body]
fn decode_text(payload: &[u8]) -> (text: Option<String>)
    ensures
        match text {
            Some(decoded) => scale_text(payload@) == Some(decoded@),
            None => scale_text(payload@) is None,
        },
{
    let mut input = payload;
    <String as parity_scale_codec::Decode>::decode(&mut input).ok()
}

/// The bytes of a text on the wire, as `<str as
/// parity_scale_codec::Encode>::encode` writes it.
pub uninterp spec fn scale_text_encoding(text: Seq<char>) -> Seq<u8>;

/// Calls `<str as parity_scale_codec::Encode>::encode`, which writes the
/// length of the text in bytes, compact, and then the bytes; it panics on a
/// text of more than `u32::MAX` bytes. What it writes,
/// `<String as Decode>::decode` reads back as the same text.
#[verifier::external_body]
fn write_text(text: &str) -> (payload: Vec<u8>)
    requires
        text.len() <= 0xFFFF_FFFF,
    ensures
        payload@ == scale_text_encoding(text@),
        scale_text(payload@) == Some(text@),
{
    parity_scale_codec::Encode::encode(text)
}

/// Writes a text as it goes on the wire, if it is not too long for it: a
/// text of more than `u32::MAX` bytes has no wire format.
///
/// What is written decodes to the text again.
pub fn encode_text(text: &str) -> (payload: Option<Vec<u8>>)
    ensures
        payload is None <==> text.len() > 0xFFFF_FFFF,
        payload matches Some(written) ==> written@ == scale_text_encoding(text@) && scale_text(
            written@,
        ) == Some(text@),
{
    if text.len() > 0xFFFF_FFFF {
        None
    } else {
        Some(write_text(text))
    }
}

/// A message type with a wire format.
pub trait WireMessage: Sized {
    /// Decodes a payload: the message that it holds, or `None` where it
    /// holds none.
    fn decode_wire(payload: &[u8]) -> Option<Self>;
}

impl WireMessage for String {
    /// A text is on the wire what SCALE makes of it.
    fn decode_wire(payload: &[u8]) -> (message: Option<String>)
        ensures
            match message {
                Some(decoded) => scale_text(payload@) == Some(decoded@),
                None => scale_text(payload@) is None,
            },
    {
        decode_text(payload)
    }
}

/// How many bytes a `u32` takes on the wire.
pub const U32_WIRE_LEN: usize = 4;

/// The bytes of a `u32` on the wire, as SCALE writes it: four bytes, the
/// least significant first.
pub open spec fn u32_encoding(value: u32) -> Seq<u8> {
    seq![
        (value % 256) as u8,
        ((value / 256) % 256) as u8,
        (((value / 256) / 256) % 256) as u8,
        (((value / 256) / 256) / 256) as u8,
    ]
}

/// The `u32` at the front of a payload: its first four bytes, the least
/// significant first. `None` where the payload is too short to hold one.
/// What follows the four bytes is not looked at.
pub open spec fn u32_decoding(payload: Seq<u8>) -> Option<u32> {
    if payload.len() >= U32_WIRE_LEN {
        Some((payload[0] + 256 * (payload[1] + 256 * (payload[2] + 256 * payload[3]))) as u32)
    } else {
        None
    }
}

/// Writes a `u32` as it goes on the wire.
pub fn encode_u32(value: u32) -> (payload: Vec<u8>)
    ensures
        payload@ == u32_encoding(value),
{
    let q1: u32 = value / 256;
    let q2: u32 = q1 / 256;
    let q3: u32 = q2 / 256;
    let mut payload: Vec<u8> = Vec::new();
    payload.push((value % 256) as u8);
    payload.push((q1 % 256) as u8);
    payload.push((q2 % 256) as u8);
    payload.push(q3 as u8);
    assert(payload@ =~= u32_encoding(value));
    payload
}

impl WireMessage for u32 {
    /// Reads the `u32` at the front of the payload.
    fn decode_wire(payload: &[u8]) -> (message: Option<u32>)
        ensures
            message == u32_decoding(payload@),
    {
        if payload.len() >= U32_WIRE_LEN {
            let b0: u32 = payload[0] as u32;
            let b1: u32 = payload[1] as u32;
            let b2: u32 = payload[2] as u32;
            let b3: u32 = payload[3] as u32;
            Some(b0 + 256 * (b1 + 256 * (b2 + 256 * b3)))
        } else {
            None
        }
    }
}

/// What was written is read back: a `u32` that is put on the wire decodes
/// to itself, whatever follows it in the payload, and a payload that was
/// cut short holds none.
pub proof fn lemma_u32_round_trip(value: u32, rest: Seq<u8>, kept: int)
    requires
        0 <= kept < U32_WIRE_LEN,
    ensures
        u32_encoding(value).len() == U32_WIRE_LEN,
        u32_decoding(u32_encoding(value)) == Some(value),
        u32_decoding(u32_encoding(value) + rest) == Some(value),
        u32_decoding(u32_encoding(value).take(kept)) is None,
{
    let written = u32_encoding(value);
    let longer = written + rest;
    assert(longer[0] == written[0] && longer[1] == written[1] && longer[2] == written[2]
        && longer[3] == written[3]);
}

/// The payload of four bytes with 42 at the front holds the `u32` 42.
pub proof fn lemma_u32_decoding_of_42()
    ensures
        u32_decoding(seq![42u8, 0u8, 0u8, 0u8]) == Some(42u32),
        u32_encoding(42u32) == seq![42u8, 0u8, 0u8, 0u8],
{
    assert(u32_encoding(42u32) =~= seq![42u8, 0u8, 0u8, 0u8]);
}

/// What became of a payload.
#[derive(Clone, Copy, Debug, PartialEq, Eq, Structural)]
pub enum DispatchOutcome {
    /// It decoded, and the message was published once; so many receivers
    /// its channel had when it was sent. None of them need ever read it.
    Published { receivers: usize },
    /// It did not decode: nothing was published.
    Rejected,
}

/// Whether `receivers` is what `bus` answered to the publication of
/// `message`: the call was made on this bus with this message, and this is
/// what came back.
pub closed spec fn published_as<T: Clone + Send + Sync + 'static>(
    bus: EventBus,
    message: T,
    receivers: usize,
) -> bool {
    call_ensures(EventBus::publish::<T>, (&bus, message), receivers)
}

/// What becomes of a payload that decoded to `decoded`, on a dispatcher
/// that publishes on `bus`: it is rejected where there is no message, and
/// else the message is published, with the receivers that the bus
/// answered.
pub open spec fn dispatched<T: Clone + Send + Sync + 'static>(
    bus: EventBus,
    decoded: Option<T>,
    outcome: DispatchOutcome,
) -> bool {
    match decoded {
        None => outcome == DispatchOutcome::Rejected,
        Some(message) => outcome matches DispatchOutcome::Published { receivers } && published_as(
            bus,
            message,
            receivers,
        ),
    }
}

/// Takes raw payloads.
pub trait Dispatcher: Send + Sync {
    fn dispatch(&self, payload: Vec<u8>);
}

/// The dispatcher for messages of type `T`.
pub struct TypedDispatcher<T> {
    event_bus: EventBus,
    _marker: PhantomData<T>,
}

impl<T: WireMessage + Clone + Send + Sync + 'static> TypedDispatcher<T> {
    /// The bus that the decoded messages go to.
    pub closed spec fn bus(&self) -> EventBus {
        self.event_bus
    }

    /// A dispatcher that publishes on `event_bus`.
    pub fn new(event_bus: EventBus) -> (dispatcher: Self)
        ensures
            dispatcher.bus() == event_bus,
    {
        TypedDispatcher { event_bus, _marker: PhantomData }
    }

    /// Publishes the message that a payload decoded to, if there is one.
    ///
    /// Where there is none the payload is rejected, and only then: nothing
    /// is published. A message is published on the dispatcher's bus, once,
    /// and the outcome holds what the bus answered.
    pub fn publish_decoded(&self, decoded: Option<T>) -> (outcome: DispatchOutcome)
        ensures
            dispatched(self.bus(), decoded, outcome),
            decoded is None <==> outcome is Rejected,
            decoded is Some <==> outcome is Published,
    {
        match decoded {
            None => DispatchOutcome::Rejected,
            Some(message) => DispatchOutcome::Published {
                receivers: self.event_bus.publish(message),
            },
        }
    }

    /// Decodes `payload` and publishes the message, if there is one.
    ///
    /// The payload is rejected exactly when decoding gives no message, and
    /// the message that decoding gives is published; what decoding gives is
    /// for the message type to say.
    pub fn handle(&self, payload: &[u8]) -> (outcome: DispatchOutcome)
        ensures
            exists|decoded: Option<T>|
                call_ensures(T::decode_wire, (payload,), decoded) && #[trigger] dispatched(
                    self.bus(),
                    decoded,
                    outcome,
                ),
    {
        let decoded = T::decode_wire(payload);
        self.publish_decoded(decoded)
    }

    /// Whether `outcome` is what [`TypedDispatcher::handle`] made of the
    /// bytes `payload` on this dispatcher.
    pub closed spec fn handled(&self, payload: Seq<u8>, outcome: DispatchOutcome) -> bool {
        exists|bytes: &[u8]|
            bytes@ == payload && call_ensures(TypedDispatcher::<T>::handle, (self, bytes), outcome)
    }
}

impl<T: WireMessage + Clone + Send + Sync + 'static> Dispatcher for TypedDispatcher<T> {
    /// Decodes `payload` and publishes the message, if there is one. A
    /// payload that does not decode is dropped. This is
    /// [`TypedDispatcher::handle`] on the bytes of the payload, which also
    /// says what became of it.
    fn dispatch(&self, payload: Vec<u8>)
        ensures
            exists|outcome: DispatchOutcome| #[trigger] self.handled(payload@, outcome),
    {
        let outcome = self.handle(payload.as_slice());
        assert(self.handled(payload@, outcome));
    }
}

/// A text that is put on the wire and handed to its decoder comes out as
/// it went in: a dispatcher of texts never rejects it, and what it
/// publishes is the text that was sent.
pub proof fn lemma_sent_text_is_received(text: Seq<char>, payload: &[u8], decoded: Option<String>)
    requires
        scale_text(payload@) == Some(text),
        call_ensures(<String as WireMessage>::decode_wire, (payload,), decoded),
    ensures
        decoded matches Some(received) && received@ == text,
{
}

/// For texts, decoding gives no message exactly on the payloads that are
/// no SCALE text: these, and only these, a dispatcher of texts rejects.
pub proof fn lemma_text_is_rejected_iff_not_scale(payload: &[u8], decoded: Option<String>)
    requires
        call_ensures(<String as WireMessage>::decode_wire, (payload,), decoded),
    ensures
        decoded is None <==> scale_text(payload@) is None,
        decoded matches Some(text) ==> scale_text(payload@) == Some(text@),
{
}

} // verus!
