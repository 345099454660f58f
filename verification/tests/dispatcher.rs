use parity_scale_codec::Decode;
use parity_scale_codec::Encode;
use p2p_engine::message::execution::ExecutionTask;
use p2p_engine::protocol_dispatcher::encode_text;
use p2p_engine::protocol_dispatcher::encode_u32;
use p2p_engine::DispatchOutcome;
use p2p_engine::Dispatcher;
use p2p_engine::EventBus;
use p2p_engine::TypedDispatcher;
use p2p_engine::WireMessage;
use tokio::sync::broadcast::error::TryRecvError;

#[derive(Debug, Clone)]
struct NetworkMsg {
    name: String,
}

impl Encode for NetworkMsg {
    fn encode_to<W: parity_scale_codec::Output + ?Sized>(&self, dest: &mut W) {
        self.name.encode_to(dest);
    }
}

impl Decode for NetworkMsg {
    fn decode<I: parity_scale_codec::Input>(input: &mut I) -> Result<Self, parity_scale_codec::Error> {
        Ok(NetworkMsg { name: String::decode(input)? })
    }
}

impl WireMessage for NetworkMsg {
    fn decode_wire(payload: &[u8]) -> Option<Self> {
        let mut input = payload;
        NetworkMsg::decode(&mut input).ok()
    }
}

#[test]
fn check_scale_types() {
    let msg = NetworkMsg { name: "hello".into() };
    let bytes = msg.encode();
    assert_eq!(msg.name, NetworkMsg::decode(&mut &bytes[..]).unwrap().name);
    assert_eq!(msg.name, NetworkMsg::decode_wire(&bytes).unwrap().name);
    assert_eq!(msg.name, String::decode_wire(&bytes).unwrap());
}

#[test]
fn the_wire_format_of_a_text_is_its_length_and_its_bytes() {
    assert_eq!(String::decode_wire(&[20, 104, 101, 108, 108, 111]), Some(String::from("hello")));
    assert_eq!(String::decode_wire(&[0]), Some(String::new()));
    assert_eq!(String::decode_wire(&[4, 97, 98, 99]), Some(String::from("a")));
}

#[test]
fn a_payload_that_is_cut_short_or_garbled_does_not_decode() {
    assert_eq!(String::decode_wire(&[]), None);
    assert_eq!(String::decode_wire(&[20, 104, 101, 108, 108]), None);
    assert_eq!(String::decode_wire(&[8, 255, 254]), None);
    assert_eq!(String::decode_wire(&[3]), None);
}

#[test]
fn dispatch_publishes_a_valid_message_exactly_once() {
    let bus = EventBus::default();
    let mut rx = bus.subscribe::<String>();
    let dispatcher: TypedDispatcher<String> = TypedDispatcher::new(bus);
    let sent = String::from("hello");
    dispatcher.dispatch(sent.encode());
    assert_eq!(rx.try_recv(), Ok(sent));
    assert_eq!(rx.try_recv(), Err(TryRecvError::Empty));
}

#[test]
fn dispatch_drops_a_truncated_payload() {
    let bus = EventBus::default();
    let mut rx = bus.subscribe::<String>();
    let dispatcher: TypedDispatcher<String> = TypedDispatcher::new(bus);
    let mut payload = String::from("hello").encode();
    payload.pop();
    dispatcher.dispatch(payload);
    dispatcher.dispatch(Vec::new());
    dispatcher.dispatch(vec![8, 255, 254]);
    assert_eq!(rx.try_recv(), Err(TryRecvError::Empty));
}

#[test]
fn handle_says_what_became_of_the_payload() {
    let bus = EventBus::default();
    let mut first = bus.subscribe::<String>();
    let mut second = bus.subscribe::<String>();
    let dispatcher: TypedDispatcher<String> = TypedDispatcher::new(bus);
    let payload = String::from("news").encode();
    assert_eq!(dispatcher.handle(&payload), DispatchOutcome::Published { receivers: 2 });
    assert_eq!(dispatcher.handle(&payload[..3]), DispatchOutcome::Rejected);
    assert_eq!(dispatcher.handle(&[]), DispatchOutcome::Rejected);
    assert_eq!(first.try_recv(), Ok(String::from("news")));
    assert_eq!(first.try_recv(), Err(TryRecvError::Empty));
    assert_eq!(second.try_recv(), Ok(String::from("news")));
    assert_eq!(second.try_recv(), Err(TryRecvError::Empty));
}

#[test]
fn handle_without_a_subscriber_publishes_to_nobody() {
    let dispatcher: TypedDispatcher<String> = TypedDispatcher::new(EventBus::default());
    let payload = String::from("unheard").encode();
    assert_eq!(dispatcher.handle(&payload), DispatchOutcome::Published { receivers: 0 });
    assert_eq!(dispatcher.handle(&payload), DispatchOutcome::Published { receivers: 0 });
}

#[test]
fn dispatchers_of_different_types_do_not_disturb_each_other() {
    let text_bus = EventBus::default();
    let msg_bus = EventBus::default();
    let mut texts = text_bus.subscribe::<String>();
    let mut msgs = msg_bus.subscribe::<NetworkMsg>();
    let for_texts: TypedDispatcher<String> = TypedDispatcher::new(text_bus);
    let for_msgs: TypedDispatcher<NetworkMsg> = TypedDispatcher::new(msg_bus);
    let dispatchers: Vec<Box<dyn Dispatcher>> = vec![Box::new(for_texts), Box::new(for_msgs)];
    dispatchers[0].dispatch(String::from("one").encode());
    dispatchers[1].dispatch(NetworkMsg { name: String::from("two") }.encode());
    assert_eq!(texts.try_recv(), Ok(String::from("one")));
    assert_eq!(texts.try_recv(), Err(TryRecvError::Empty));
    assert_eq!(msgs.try_recv().unwrap().name, "two");
    assert!(msgs.try_recv().is_err());
}

#[test]
fn trailing_bytes_after_a_message_are_ignored() {
    let mut payload = String::from("hi").encode();
    payload.push(9);
    payload.push(9);
    assert_eq!(String::decode_wire(&payload), Some(String::from("hi")));
}

#[test]
fn a_task_goes_on_the_wire_as_scale_writes_its_number() {
    let task = ExecutionTask { id: 1 };
    assert_eq!(task.encode_wire(), vec![1, 0, 0, 0, 0, 0, 0, 0]);
    assert_eq!(task.encode_wire(), 1u64.encode());
    let task = ExecutionTask { id: 0x0102030405060708 };
    assert_eq!(task.encode_wire(), vec![8, 7, 6, 5, 4, 3, 2, 1]);
    assert_eq!(task.encode_wire(), 0x0102030405060708u64.encode());
    for id in [0u64, 255, 256, 65535, 4294967296, 18446744073709551615] {
        let written = ExecutionTask { id }.encode_wire();
        assert_eq!(written, id.encode());
        assert_eq!(u64::decode(&mut &written[..]).unwrap(), id);
        assert_eq!(ExecutionTask::decode_wire(&written), Some(ExecutionTask { id }));
        assert_eq!(ExecutionTask::decode_wire(&id.encode()), Some(ExecutionTask { id }));
    }
}

#[test]
fn a_task_that_is_cut_short_does_not_decode() {
    let written = ExecutionTask { id: 77 }.encode_wire();
    let mut kept = 0;
    while kept < 8 {
        assert_eq!(ExecutionTask::decode_wire(&written[..kept]), None);
        assert!(u64::decode(&mut &written[..kept]).is_err());
        kept += 1;
    }
    assert_eq!(ExecutionTask::decode_wire(&written), Some(ExecutionTask { id: 77 }));
}

#[test]
fn what_follows_a_task_in_the_payload_is_not_looked_at() {
    let mut payload = ExecutionTask { id: 513 }.encode_wire();
    payload.extend_from_slice(&[9, 9, 9]);
    assert_eq!(ExecutionTask::decode_wire(&payload), Some(ExecutionTask { id: 513 }));
    assert_eq!(u64::decode(&mut &payload[..]).unwrap(), 513);
}

#[test]
fn a_dispatched_task_arrives_once_and_as_it_was_sent() {
    let bus = EventBus::default();
    let mut rx = bus.subscribe::<ExecutionTask>();
    let dispatcher: TypedDispatcher<ExecutionTask> = TypedDispatcher::new(bus);
    let sent = ExecutionTask { id: 4242 };
    assert_eq!(dispatcher.handle(&sent.encode_wire()), DispatchOutcome::Published { receivers: 1 });
    assert_eq!(rx.try_recv(), Ok(sent));
    assert_eq!(rx.try_recv(), Err(TryRecvError::Empty));
    assert_eq!(dispatcher.handle(&sent.encode_wire()[..7]), DispatchOutcome::Rejected);
    dispatcher.dispatch(sent.encode_wire()[..3].to_vec());
    assert_eq!(rx.try_recv(), Err(TryRecvError::Empty));
    dispatcher.dispatch(ExecutionTask { id: 0 }.encode_wire());
    assert_eq!(rx.try_recv(), Ok(ExecutionTask { id: 0 }));
}

#[test]
fn a_u32_goes_on_the_wire_as_scale_writes_it() {
    assert_eq!(encode_u32(42), vec![0x2a, 0, 0, 0]);
    assert_eq!(u32::decode_wire(&[0x2a, 0, 0, 0]), Some(42));
    for value in [0u32, 1, 255, 256, 65536, 0x01020304, 4294967295] {
        let written = encode_u32(value);
        assert_eq!(written, value.encode());
        assert_eq!(u32::decode_wire(&written), Some(value));
        assert_eq!(u32::decode(&mut &written[..]).unwrap(), value);
    }
    assert_eq!(encode_u32(0x01020304), vec![4, 3, 2, 1]);
    assert_eq!(u32::decode_wire(&[1, 2, 3]), None);
    assert_eq!(u32::decode_wire(&[]), None);
    assert_eq!(u32::decode_wire(&[0x2a, 0, 0, 0, 7]), Some(42));
    assert_eq!(u32::decode(&mut &[0x2a, 0, 0, 0, 7][..]).unwrap(), 42);
}

#[test]
fn a_dispatched_u32_arrives_once() {
    let bus = EventBus::default();
    let mut rx = bus.subscribe::<u32>();
    let dispatcher: TypedDispatcher<u32> = TypedDispatcher::new(bus);
    dispatcher.dispatch(vec![0x2a, 0, 0, 0]);
    assert_eq!(rx.try_recv(), Ok(42u32));
    assert_eq!(rx.try_recv(), Err(TryRecvError::Empty));
}

#[test]
fn a_valid_payload_after_a_rejected_one_is_published() {
    let bus = EventBus::default();
    let mut rx = bus.subscribe::<String>();
    let dispatcher: TypedDispatcher<String> = TypedDispatcher::new(bus);
    assert_eq!(dispatcher.handle(&[20, 104]), DispatchOutcome::Rejected);
    assert_eq!(
        dispatcher.handle(&String::from("hello").encode()),
        DispatchOutcome::Published { receivers: 1 }
    );
    assert_eq!(rx.try_recv(), Ok(String::from("hello")));
    assert_eq!(rx.try_recv(), Err(TryRecvError::Empty));
}

#[test]
fn a_text_goes_on_the_wire_as_scale_writes_it_and_comes_back() {
    assert_eq!(encode_text("hello"), Some(vec![0x14, b'h', b'e', b'l', b'l', b'o']));
    assert_eq!(encode_text(""), Some(vec![0]));
    for text in ["", "a", "hello", "gr\u{fc}\u{df}e", "\u{1f980}"] {
        let written = encode_text(text).unwrap();
        assert_eq!(written, text.encode());
        assert_eq!(String::decode_wire(&written), Some(String::from(text)));
    }
    let long = "x".repeat(70000);
    let written = encode_text(&long).unwrap();
    assert_eq!(written.len(), 70004);
    assert_eq!(String::decode_wire(&written), Some(long));
}

#[test]
fn a_dispatched_text_that_was_encoded_here_arrives_as_it_was() {
    let bus = EventBus::default();
    let mut rx = bus.subscribe::<String>();
    let dispatcher: TypedDispatcher<String> = TypedDispatcher::new(bus);
    dispatcher.dispatch(encode_text("hello").unwrap());
    assert_eq!(rx.try_recv(), Ok(String::from("hello")));
    assert_eq!(rx.try_recv(), Err(TryRecvError::Empty));
}
