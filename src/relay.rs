//! The server's relay rules: who is connected, which identifier each
//! client got, and what goes out for each transport event.
use vstd::prelude::*;
use vstd::slice::slice_to_vec;
use crate::error::ProtocolError;
use crate::message::{GreetingResponse, Message, MessageKind, MessageValue};
use crate::protocol::{frame_bytes, SimpleProtocol};
use crate::transport::{Address, TransportEvent};

verus! {

/// Bytes to send to one peer.
pub struct Outbound {
    pub to: Address,
    pub bytes: Vec<u8>,
}

pub open spec fn outbound_view(out: Seq<Outbound>) -> Seq<(Address, Seq<u8>)> {
    out.map_values(|o: Outbound| (o.to, o.bytes@))
}

/// The same bytes for each of `peers`, in order.
pub open spec fn fan_out(peers: Seq<Address>, bytes: Seq<u8>) -> Seq<(Address, Seq<u8>)> {
    peers.map_values(|a: Address| (a, bytes))
}

/// The connected clients; a client's identifier is its position, which is
/// the order in which they connected.
pub struct Relay {
    clients: Vec<Address>,
}

impl Relay {
    pub closed spec fn clients(&self) -> Seq<Address> {
        self.clients@
    }

    pub closed spec fn wf(&self) -> bool {
        self.clients@.no_duplicates()
    }

    pub fn new() -> (r: Self)
        ensures
            r.wf(),
            r.clients() == Seq::<Address>::empty(),
    {
        Relay { clients: Vec::new() }
    }

    /// The identifier that `addr` was given when it connected.
    pub fn client_id(&self, addr: &Address) -> (r: Option<usize>)
        ensures
            match r {
                Some(i) => i < self.clients().len() && self.clients()[i as int] == *addr,
                None => !self.clients().contains(*addr),
            },
    {
        let mut i: usize = 0;
        while i < self.clients.len()
            invariant
                i <= self.clients@.len(),
                forall|j: int| 0 <= j < i ==> self.clients@[j] != *addr,
            decreases self.clients@.len() - i,
        {
            if self.clients[i] == *addr {
                return Some(i);
            }
            i = i + 1;
        }
        None
    }

    /// A connection from `addr`. A known address changes nothing. A new one
    /// gets the next identifier and is sent a greeting response carrying it.
    pub fn on_connect(&mut self, protocol: &SimpleProtocol, addr: Address) -> (r: Result<
        Vec<Outbound>,
        ProtocolError,
    >)
        requires
            old(self).wf(),
            protocol.wf(),
        ensures
            final(self).wf(),
            old(self).clients().contains(addr) ==> r is Ok && r->Ok_0@.len() == 0 && *final(self)
                == *old(self),
            !old(self).clients().contains(addr) && !protocol.kinds().contains(
                MessageKind::GreetingResponse,
            ) ==> r == Err::<Vec<Outbound>, _>(ProtocolError::Unregistered) && *final(self)
                == *old(self),
            !old(self).clients().contains(addr) && protocol.kinds().contains(
                MessageKind::GreetingResponse,
            ) ==> {
                &&& r is Ok
                &&& final(self).clients() == old(self).clients().push(addr)
                &&& exists|d: int|
                    0 <= d < protocol.kinds().len() && protocol.kinds()[d]
                        == MessageKind::GreetingResponse && outbound_view(r->Ok_0@) == seq![
                        (
                            addr,
                            #[trigger] frame_bytes(
                                d,
                                MessageValue::GreetingResponse(
                                    GreetingResponse { player_id: old(self).clients().len() as usize },
                                ),
                            ),
                        ),
                    ]
            },
    {
        if self.client_id(&addr).is_some() {
            let out: Vec<Outbound> = Vec::new();
            return Ok(out);
        }
        let client_id = self.clients.len();
        let greeting = Message::GreetingResponse(GreetingResponse { player_id: client_id });
        let bytes = protocol.prepare_send_buffer(&greeting)?;
        let ghost d = choose|d: int|
            0 <= d < protocol.kinds().len() && protocol.kinds()[d] == MessageKind::GreetingResponse
                && bytes@ == #[trigger] frame_bytes(d, greeting@);
        self.clients.push(addr);
        assert(self.clients@.no_duplicates()) by {
            assert forall|i: int, j: int|
                0 <= i < j < self.clients@.len() implies self.clients@[i] != self.clients@[j] by {
                if j == self.clients@.len() - 1 {
                    assert(old(self).clients@[i] == self.clients@[i]);
                } else {
                    assert(old(self).clients@[i] == self.clients@[i]);
                    assert(old(self).clients@[j] == self.clients@[j]);
                }
            }
        }
        let mut out: Vec<Outbound> = Vec::new();
        out.push(Outbound { to: addr, bytes });
        assert(outbound_view(out@) =~= seq![(addr, bytes@)]);
        assert(client_id == old(self).clients().len() as usize);
        assert(greeting@ == MessageValue::GreetingResponse(
            GreetingResponse { player_id: old(self).clients().len() as usize },
        ));
        assert(outbound_view(out@) == seq![
            (
                addr,
                frame_bytes(
                    d,
                    MessageValue::GreetingResponse(
                        GreetingResponse { player_id: old(self).clients().len() as usize },
                    ),
                ),
            ),
        ]);
        Ok(out)
    }

    /// An application packet from any peer: its payload goes, unchanged, to
    /// every connected client, the sender included, in connection order.
    pub fn on_packet(&self, payload: &[u8]) -> (out: Vec<Outbound>)
        ensures
            outbound_view(out@) == fan_out(self.clients(), payload@),
    {
        let mut out: Vec<Outbound> = Vec::new();
        let mut i: usize = 0;
        while i < self.clients.len()
            invariant
                i <= self.clients@.len(),
                outbound_view(out@) == fan_out(self.clients@.take(i as int), payload@),
            decreases self.clients@.len() - i,
        {
            let bytes = slice_to_vec(payload);
            let ghost prev = out@;
            out.push(Outbound { to: self.clients[i], bytes });
            assert(outbound_view(out@) =~= outbound_view(prev).push((self.clients@[i as int], payload@)));
            assert(self.clients@.take(i + 1) =~= self.clients@.take(i as int).push(self.clients@[i as int]));
            assert(outbound_view(out@) =~= fan_out(self.clients@.take(i + 1), payload@));
            i = i + 1;
        }
        assert(self.clients@.take(i as int) =~= self.clients@);
        out
    }

    /// One transport event: the relay's state after it and what to send.
    /// A timeout changes nothing and sends nothing.
    pub fn handle(&mut self, protocol: &SimpleProtocol, event: TransportEvent) -> (r: Result<
        Vec<Outbound>,
        ProtocolError,
    >)
        requires
            old(self).wf(),
            protocol.wf(),
        ensures
            final(self).wf(),
            match event {
                TransportEvent::Connect(addr) => {
                    &&& old(self).clients().contains(addr) ==> r is Ok && r->Ok_0@.len() == 0
                        && *final(self) == *old(self)
                    &&& !old(self).clients().contains(addr) && !protocol.kinds().contains(
                        MessageKind::GreetingResponse,
                    ) ==> r == Err::<Vec<Outbound>, _>(ProtocolError::Unregistered) && *final(self)
                        == *old(self)
                    &&& !old(self).clients().contains(addr) && protocol.kinds().contains(
                        MessageKind::GreetingResponse,
                    ) ==> {
                        &&& r is Ok
                        &&& final(self).clients() == old(self).clients().push(addr)
                        &&& exists|d: int|
                            0 <= d < protocol.kinds().len() && protocol.kinds()[d]
                                == MessageKind::GreetingResponse && outbound_view(r->Ok_0@) == seq![
                                (
                                    addr,
                                    #[trigger] frame_bytes(
                                        d,
                                        MessageValue::GreetingResponse(
                                            GreetingResponse {
                                                player_id: old(self).clients().len() as usize,
                                            },
                                        ),
                                    ),
                                ),
                            ]
                    }
                },
                TransportEvent::Timeout(_) => r is Ok && r->Ok_0@.len() == 0 && *final(self) == *old(self),
                TransportEvent::Packet(_, bytes) => r is Ok && outbound_view(r->Ok_0@) == fan_out(
                    old(self).clients(),
                    bytes@,
                ) && *final(self) == *old(self),
            },
    {
        match event {
            TransportEvent::Connect(addr) => self.on_connect(protocol, addr),
            TransportEvent::Timeout(_) => {
                let out: Vec<Outbound> = Vec::new();
                Ok(out)
            },
            TransportEvent::Packet(_, bytes) => Ok(self.on_packet(bytes.as_slice())),
        }
    }
}

} // verus!
