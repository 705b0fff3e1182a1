use zed_shared::message::{Greeting, GreetingResponse, Message};
use zed_shared::protocol::{register_messages, SimpleProtocol};
use zed_shared::relay::Relay;
use zed_shared::transport::{Address, TransportEvent};

fn addr(port: u16) -> Address {
    Address { ip: 0x7f00_0001, port, v6: false, flowinfo: 0, scope_id: 0 }
}

fn game_protocol() -> SimpleProtocol {
    let mut p = SimpleProtocol::new();
    register_messages(&mut p);
    p
}

fn greeting_response(p: &SimpleProtocol, id: usize) -> Vec<u8> {
    p.prepare_send_buffer(&Message::GreetingResponse(GreetingResponse { player_id: id })).unwrap()
}

#[test]
fn handshake_assigns_sequential_ids() {
    let p = game_protocol();
    let mut relay = Relay::new();

    let hello = p.prepare_send_buffer(&Message::Greeting(Greeting { name: "Alice".to_string() })).unwrap();
    let mut expected_hello = vec![0u8; 8];
    expected_hello.extend([5, 0, 0, 0, 0, 0, 0, 0]);
    expected_hello.extend(b"Alice");
    assert_eq!(hello, expected_hello);

    let out = relay.handle(&p, TransportEvent::Connect(addr(1))).unwrap();
    assert_eq!(out.len(), 1);
    assert_eq!(out[0].to, addr(1));
    assert_eq!(out[0].bytes, greeting_response(&p, 0));
    let mut expected = vec![1u8, 0, 0, 0, 0, 0, 0, 0];
    expected.extend([0u8; 8]);
    assert_eq!(out[0].bytes, expected);

    let out = relay.handle(&p, TransportEvent::Connect(addr(2))).unwrap();
    assert_eq!(out.len(), 1);
    assert_eq!(out[0].to, addr(2));
    assert_eq!(out[0].bytes, greeting_response(&p, 1));
    assert_eq!(relay.client_id(&addr(1)), Some(0));
    assert_eq!(relay.client_id(&addr(2)), Some(1));
}

#[test]
fn relay_fans_out_to_every_client_including_sender() {
    let p = game_protocol();
    let mut relay = Relay::new();
    relay.handle(&p, TransportEvent::Connect(addr(1))).unwrap();
    relay.handle(&p, TransportEvent::Connect(addr(2))).unwrap();
    let payload = vec![2u8, 0, 0, 0, 0, 0, 0, 0, 42, 7];
    let out = relay.handle(&p, TransportEvent::Packet(addr(1), payload.clone())).unwrap();
    assert_eq!(out.len(), 2);
    assert_eq!(out[0].to, addr(1));
    assert_eq!(out[0].bytes, payload);
    assert_eq!(out[1].to, addr(2));
    assert_eq!(out[1].bytes, payload);
}

#[test]
fn reconnect_keeps_identifier() {
    let p = game_protocol();
    let mut relay = Relay::new();
    relay.handle(&p, TransportEvent::Connect(addr(1))).unwrap();
    relay.handle(&p, TransportEvent::Connect(addr(2))).unwrap();
    let out = relay.handle(&p, TransportEvent::Connect(addr(1))).unwrap();
    assert!(out.is_empty());
    assert_eq!(relay.client_id(&addr(1)), Some(0));
    assert_eq!(relay.client_id(&addr(2)), Some(1));
    let out = relay.handle(&p, TransportEvent::Packet(addr(2), vec![1])).unwrap();
    assert_eq!(out.len(), 2);
}

#[test]
fn timeout_changes_nothing() {
    let p = game_protocol();
    let mut relay = Relay::new();
    relay.handle(&p, TransportEvent::Connect(addr(1))).unwrap();
    let out = relay.handle(&p, TransportEvent::Timeout(addr(1))).unwrap();
    assert!(out.is_empty());
    assert_eq!(relay.client_id(&addr(1)), Some(0));
    assert_eq!(relay.on_packet(&[3]).len(), 1);
}

#[test]
fn packet_with_no_clients_goes_nowhere() {
    let relay = Relay::new();
    assert!(relay.on_packet(&[1, 2, 3]).is_empty());
}

#[test]
fn connect_without_greeting_response_kind_fails() {
    let p = SimpleProtocol::new();
    let mut relay = Relay::new();
    assert!(relay.on_connect(&p, addr(1)).is_err());
    assert_eq!(relay.client_id(&addr(1)), None);
}
