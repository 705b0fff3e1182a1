use std::cell::RefCell;
use std::rc::Rc;
use zed_shared::error::ProtocolError;
use zed_shared::message::{Greeting, GreetingResponse, Message, MessageKind, PlayerStatus};
use zed_shared::protocol::{register_messages, send_outcome, Sender, SimpleProtocol};
use zed_shared::transport::{Address, TransportEvent};

struct Recorder {
    sent: RefCell<Vec<(u32, Vec<u8>)>>,
    refuse: bool,
}

impl Recorder {
    fn new(refuse: bool) -> Self {
        Recorder { sent: RefCell::new(Vec::new()), refuse }
    }
}

impl Sender<(u32, Vec<u8>)> for Recorder {
    fn send(&self, msg: (u32, Vec<u8>)) -> Result<(), String> {
        if self.refuse {
            return Err("closed".to_string());
        }
        self.sent.borrow_mut().push(msg);
        Ok(())
    }
}

fn le(v: u64) -> Vec<u8> {
    v.to_le_bytes().to_vec()
}

fn status() -> PlayerStatus {
    PlayerStatus {
        player_id: 3,
        x: 16.5f64.to_bits(),
        y: (-2.25f64).to_bits(),
        angle: 1.5f64.to_bits(),
        r: 10,
        g: 20,
        b: 30,
        holster: true,
    }
}

fn game_protocol() -> SimpleProtocol {
    let mut p = SimpleProtocol::new();
    register_messages(&mut p);
    p
}

#[test]
fn test_basic() {
    let sender = Recorder::new(false);
    let mut protocol = SimpleProtocol::new();
    assert_eq!(protocol.register(MessageKind::GreetingResponse), Ok(0));

    let r = protocol.send_reliable_unordered(
        &sender,
        1600,
        &Message::GreetingResponse(GreetingResponse { player_id: 42 }),
    );
    assert_eq!(r, Ok(()));
    let sent = sender.sent.borrow();
    assert_eq!(sent.len(), 1);
    assert_eq!(sent[0].0, 1600);
    let mut expected = le(0);
    expected.extend(le(42));
    assert_eq!(sent[0].1, expected);
}

#[test]
fn send_before_register_is_unregistered() {
    let sender = Recorder::new(false);
    let protocol = SimpleProtocol::new();
    let r = protocol.send_reliable_unordered(
        &sender,
        8080,
        &Message::GreetingResponse(GreetingResponse { player_id: 42 }),
    );
    assert_eq!(r, Err(ProtocolError::Unregistered));
    assert!(sender.sent.borrow().is_empty());
}

#[test]
fn refused_send_is_send_failure() {
    let sender = Recorder::new(true);
    let protocol = game_protocol();
    let r = protocol.send_reliable_unordered(
        &sender,
        1,
        &Message::Greeting(Greeting { name: "Alice".to_string() }),
    );
    assert_eq!(r, Err(ProtocolError::SendFailure));
    assert_eq!(send_outcome::<String>(Ok(())), Ok(()));
    assert_eq!(send_outcome(Err(7)), Err(ProtocolError::SendFailure));
}

#[test]
fn registration_assigns_discriminants_in_order() {
    let mut p = SimpleProtocol::new();
    assert_eq!(p.register(MessageKind::PlayerStatus), Ok(0));
    assert_eq!(p.register(MessageKind::Greeting), Ok(1));
    assert_eq!(p.register(MessageKind::GreetingResponse), Ok(2));
    assert_eq!(p.discriminant(MessageKind::PlayerStatus), Ok(0));
    assert_eq!(p.discriminant(MessageKind::Greeting), Ok(1));
    assert_eq!(p.discriminant(MessageKind::GreetingResponse), Ok(2));
}

#[test]
fn registering_twice_is_duplicate() {
    let mut p = SimpleProtocol::new();
    assert_eq!(p.register(MessageKind::Greeting), Ok(0));
    assert_eq!(p.register(MessageKind::Greeting), Err(ProtocolError::DuplicateRegistration));
    assert_eq!(p.register(MessageKind::PlayerStatus), Ok(1));
}

#[test]
fn lookup_before_register_is_unregistered() {
    let p = SimpleProtocol::new();
    assert_eq!(p.discriminant(MessageKind::Greeting), Err(ProtocolError::Unregistered));
}

#[test]
fn greeting_frame_bytes() {
    let p = game_protocol();
    let bytes = p
        .prepare_send_buffer(&Message::Greeting(Greeting { name: "Alice".to_string() }))
        .unwrap();
    let mut expected = le(0);
    expected.extend(le(5));
    expected.extend(b"Alice");
    assert_eq!(bytes, expected);
}

#[test]
fn player_status_frame_bytes() {
    let p = game_protocol();
    let bytes = p.prepare_send_buffer(&Message::PlayerStatus(status())).unwrap();
    let mut expected = le(2);
    expected.extend(le(3));
    expected.extend(16.5f64.to_le_bytes());
    expected.extend((-2.25f64).to_le_bytes());
    expected.extend(1.5f64.to_le_bytes());
    expected.extend([10, 20, 30, 1]);
    assert_eq!(bytes, expected);
}

fn round_trip(m: Message) {
    let mut p = game_protocol();
    let kind = m.kind();
    p.subscribe(kind, 5).unwrap();
    let mut bytes = p.prepare_send_buffer(&m).unwrap();
    bytes.extend([9, 9, 9]);
    assert_eq!(p.receive(&bytes), Ok(()));
    let calls = p.drain();
    assert_eq!(calls.len(), 1);
    assert_eq!(calls[0].0, 5);
    assert_eq!(*calls[0].1, m);
}

#[test]
fn round_trip_greeting() {
    round_trip(Message::Greeting(Greeting { name: "Zoë ✓".to_string() }));
    round_trip(Message::Greeting(Greeting { name: String::new() }));
}

#[test]
fn round_trip_greeting_response() {
    round_trip(Message::GreetingResponse(GreetingResponse { player_id: 0 }));
    round_trip(Message::GreetingResponse(GreetingResponse { player_id: 123456789 }));
}

#[test]
fn round_trip_player_status() {
    round_trip(Message::PlayerStatus(status()));
    let mut s = status();
    s.holster = false;
    s.x = f64::NAN.to_bits();
    round_trip(Message::PlayerStatus(s));
}

#[test]
fn unknown_discriminant_enqueues_nothing() {
    let mut p = game_protocol();
    p.subscribe(MessageKind::GreetingResponse, 1).unwrap();
    let mut bytes = le(3);
    bytes.extend(le(0));
    assert_eq!(p.receive(&bytes), Err(ProtocolError::UnknownDiscriminant));
    assert!(p.drain().is_empty());
}

#[test]
fn short_frame_is_truncated() {
    let mut p = game_protocol();
    assert_eq!(p.receive(&[1, 0, 0]), Err(ProtocolError::Truncated));
    assert_eq!(p.receive(&[]), Err(ProtocolError::Truncated));
}

#[test]
fn bad_payloads_are_decode_failures() {
    let mut p = game_protocol();
    p.subscribe(MessageKind::PlayerStatus, 1).unwrap();
    p.subscribe(MessageKind::Greeting, 1).unwrap();
    let mut bytes = p.prepare_send_buffer(&Message::PlayerStatus(status())).unwrap();
    let last = bytes.len() - 1;
    bytes[last] = 2;
    assert_eq!(p.receive(&bytes), Err(ProtocolError::DecodeFailure));
    bytes.truncate(last);
    assert_eq!(p.receive(&bytes), Err(ProtocolError::DecodeFailure));

    let mut text = le(0);
    text.extend(le(2));
    text.extend([0xff, 0xfe]);
    assert_eq!(p.receive(&text), Err(ProtocolError::DecodeFailure));
    let mut short = le(0);
    short.extend(le(10));
    short.extend(b"abc");
    assert_eq!(p.receive(&short), Err(ProtocolError::DecodeFailure));
    assert!(p.drain().is_empty());
}

#[test]
fn drain_order_is_message_then_subscriber() {
    let mut p = game_protocol();
    p.subscribe(MessageKind::GreetingResponse, 1).unwrap();
    p.subscribe(MessageKind::GreetingResponse, 2).unwrap();
    let a = Message::GreetingResponse(GreetingResponse { player_id: 10 });
    let b = Message::GreetingResponse(GreetingResponse { player_id: 20 });
    p.receive(&p.prepare_send_buffer(&a).unwrap()).unwrap();
    p.receive(&p.prepare_send_buffer(&b).unwrap()).unwrap();
    let calls: Vec<(usize, Message)> = p.drain().into_iter().map(|(h, m)| (h, (*m).clone())).collect();
    assert_eq!(
        calls,
        vec![(1, a.clone()), (2, a.clone()), (1, b.clone()), (2, b.clone())]
    );
    assert!(p.drain().is_empty());
}

#[test]
fn drain_shares_one_message_between_subscribers() {
    let mut p = game_protocol();
    p.subscribe(MessageKind::Greeting, 1).unwrap();
    p.subscribe(MessageKind::Greeting, 2).unwrap();
    let g = Message::Greeting(Greeting { name: "Alice".to_string() });
    p.receive(&p.prepare_send_buffer(&g).unwrap()).unwrap();
    let calls = p.drain();
    assert_eq!(calls.len(), 2);
    assert!(Rc::ptr_eq(&calls[0].1, &calls[1].1));
}

#[test]
fn kinds_drain_in_registration_order() {
    let mut p = game_protocol();
    p.subscribe(MessageKind::PlayerStatus, 7).unwrap();
    p.subscribe(MessageKind::Greeting, 8).unwrap();
    let s = Message::PlayerStatus(status());
    let g = Message::Greeting(Greeting { name: "Bob".to_string() });
    p.receive(&p.prepare_send_buffer(&s).unwrap()).unwrap();
    p.receive(&p.prepare_send_buffer(&g).unwrap()).unwrap();
    let calls = p.drain();
    assert_eq!(calls.len(), 2);
    assert_eq!((calls[0].0, (*calls[0].1).clone()), (8, g));
    assert_eq!((calls[1].0, (*calls[1].1).clone()), (7, s));
}

#[test]
fn subscribe_before_register_is_unregistered() {
    let mut p = SimpleProtocol::new();
    assert_eq!(p.subscribe(MessageKind::Greeting, 1), Err(ProtocolError::Unregistered));
}

#[test]
fn message_kind_ids_are_distinct() {
    assert_eq!(MessageKind::Greeting.id(), 0);
    assert_eq!(MessageKind::GreetingResponse.id(), 1);
    assert_eq!(MessageKind::PlayerStatus.id(), 2);
}

#[test]
fn client_events_route_packets_to_receive() {
    let peer = Address { ip: 1, port: 10995, v6: false, flowinfo: 0, scope_id: 0 };
    let mut p = game_protocol();
    p.subscribe(MessageKind::GreetingResponse, 4).unwrap();
    assert_eq!(p.on_event(&TransportEvent::Connect(peer)), Ok(()));
    assert_eq!(p.on_event(&TransportEvent::Timeout(peer)), Ok(()));
    let m = Message::GreetingResponse(GreetingResponse { player_id: 9 });
    let frame = p.prepare_send_buffer(&m).unwrap();
    assert_eq!(p.on_event(&TransportEvent::Packet(peer, frame)), Ok(()));
    assert_eq!(p.on_event(&TransportEvent::Packet(peer, vec![1])), Err(ProtocolError::Truncated));
    let calls = p.drain();
    assert_eq!(calls.len(), 1);
    assert_eq!((calls[0].0, (*calls[0].1).clone()), (4, m));
}
