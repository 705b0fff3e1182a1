//! The protocol facade: registration of message kinds, framing of outbound
//! messages, and decoding of inbound frames onto the dispatch bus.
use std::rc::Rc;
use vstd::prelude::*;
use crate::dispatch::{calls_view, drain_calls, Call, Dispatcher};
use crate::error::ProtocolError;
use crate::mapping::Mapping;
use crate::message::{
    decode_payload, encode_payload, kind_of, lemma_payload_unique, payload_bytes, Message, MessageKind,
    MessageValue,
};
use crate::transport::TransportEvent;
use crate::wire::{get_u64, lemma_u64_bytes_injective, occurs_at, put_u64, u64_bytes};

verus! {

/// A frame: the discriminant, then the payload.
pub open spec fn frame_bytes(d: int, v: MessageValue) -> Seq<u8> {
    u64_bytes(d as u64) + payload_bytes(v)
}

/// `bytes` starts with a frame of `v` under the discriminants `kinds`.
pub open spec fn decodes_to(kinds: Seq<MessageKind>, bytes: Seq<u8>, v: MessageValue) -> bool {
    exists|d: int|
        0 <= d < kinds.len() && kinds[d] == kind_of(v) && #[trigger] occurs_at(
            u64_bytes(d as u64),
            bytes,
            0,
        ) && occurs_at(payload_bytes(v), bytes, 8)
}

/// The discriminant at the start of `bytes` is one of `kinds`.
pub open spec fn known_discriminant(kinds: Seq<MessageKind>, bytes: Seq<u8>) -> bool {
    exists|d: int| 0 <= d < kinds.len() && #[trigger] occurs_at(u64_bytes(d as u64), bytes, 0)
}

/// What registering `k` on top of `kinds` returns.
pub open spec fn register_result(kinds: Seq<MessageKind>, k: MessageKind) -> Result<int, ProtocolError> {
    if kinds.contains(k) {
        Err(ProtocolError::DuplicateRegistration)
    } else {
        Ok(kinds.len() as int)
    }
}

/// The registered kinds after registering `k` on top of `kinds`.
pub open spec fn after_register(kinds: Seq<MessageKind>, k: MessageKind) -> Seq<MessageKind> {
    if kinds.contains(k) {
        kinds
    } else {
        kinds.push(k)
    }
}

/// The registered kinds after registering each of `ks` in turn.
pub open spec fn after_register_all(kinds: Seq<MessageKind>, ks: Seq<MessageKind>) -> Seq<MessageKind>
    decreases ks.len(),
{
    if ks.len() == 0 {
        kinds
    } else {
        after_register(after_register_all(kinds, ks.drop_last()), ks.last())
    }
}

/// A destination for outbound frames, such as a transport's send handle.
pub trait Sender<T> {
    fn send(&self, msg: T) -> Result<(), String>;
}

/// Registry, codec and decoder table in one unit, so that the discriminants
/// agree between the send and the receive path.
pub struct SimpleProtocol {
    dispatcher: Dispatcher,
    decoders: Vec<MessageKind>,
    message_ids: Mapping,
}

impl SimpleProtocol {
    /// The registered kinds; the discriminant of a kind is its position.
    pub closed spec fn kinds(&self) -> Seq<MessageKind> {
        self.decoders@
    }

    /// The bus that decoded messages are handed to.
    pub closed spec fn bus(&self) -> Dispatcher {
        self.dispatcher
    }

    pub closed spec fn wf(&self) -> bool {
        let kinds = self.decoders@;
        &&& kinds.no_duplicates()
        &&& self.dispatcher.wf()
        &&& self.dispatcher.kinds() == kinds
        &&& forall|k: MessageKind|
            #![trigger self.message_ids.left().contains_key(k.spec_id())]
            self.message_ids.left().contains_key(k.spec_id()) <==> kinds.contains(k)
        &&& forall|i: int|
            #![trigger kinds[i]]
            0 <= i < kinds.len() ==> self.message_ids.left()[kinds[i].spec_id()] == i
                && self.message_ids.right().contains_key(i as usize)
                && self.message_ids.right()[i as usize] == kinds[i].spec_id()
        &&& forall|d: usize|
            #![trigger self.message_ids.right().contains_key(d)]
            self.message_ids.right().contains_key(d) ==> d < kinds.len()
    }

    pub fn new() -> (p: Self)
        ensures
            p.wf(),
            p.kinds() == Seq::<MessageKind>::empty(),
            p.bus().pending() == Seq::<Seq<MessageValue>>::empty(),
            p.bus().subscribers() == Seq::<Seq<usize>>::empty(),
    {
        Self { dispatcher: Dispatcher::new(), decoders: Vec::new(), message_ids: Mapping::new() }
    }

    /// The bus, for reading.
    pub fn dispatcher(&self) -> (d: &Dispatcher)
        ensures
            *d == self.bus(),
    {
        &self.dispatcher
    }

    /// The discriminant of `kind`.
    pub fn discriminant(&self, kind: MessageKind) -> (r: Result<usize, ProtocolError>)
        requires
            self.wf(),
        ensures
            match r {
                Ok(d) => d < self.kinds().len() && self.kinds()[d as int] == kind,
                Err(e) => e == ProtocolError::Unregistered && !self.kinds().contains(kind),
            },
    {
        let id = kind.id();
        match self.message_ids.by_left(&id) {
            Some(d) => Ok(*d),
            None => Err(ProtocolError::Unregistered),
        }
    }

    /// Gives `kind` the next discriminant and makes room for it on the bus.
    pub fn register(&mut self, kind: MessageKind) -> (r: Result<usize, ProtocolError>)
        requires
            old(self).wf(),
        ensures
            final(self).wf(),
            final(self).kinds() == after_register(old(self).kinds(), kind),
            match r {
                Ok(d) => Ok::<int, ProtocolError>(d as int),
                Err(e) => Err(e),
            } == register_result(old(self).kinds(), kind),
            match r {
                Ok(d) => {
                    &&& !old(self).kinds().contains(kind)
                    &&& d == old(self).kinds().len()
                    &&& final(self).kinds() == old(self).kinds().push(kind)
                    &&& final(self).bus().pending() == old(self).bus().pending().push(Seq::empty())
                    &&& final(self).bus().subscribers() == old(self).bus().subscribers().push(
                        Seq::empty(),
                    )
                },
                Err(e) => {
                    &&& e == ProtocolError::DuplicateRegistration
                    &&& old(self).kinds().contains(kind)
                    &&& *final(self) == *old(self)
                },
            },
    {
        let id = kind.id();
        if self.message_ids.by_left(&id).is_some() {
            return Err(ProtocolError::DuplicateRegistration);
        }
        let d = self.decoders.len();
        self.dispatcher.register(kind);
        self.message_ids.insert(id, d);
        self.decoders.push(kind);
        let ghost kinds = self.decoders@;
        assert forall|k: MessageKind|
            #![trigger self.message_ids.left().contains_key(k.spec_id())]
            self.message_ids.left().contains_key(k.spec_id()) <==> kinds.contains(k) by {
            if k == kind {
                assert(kinds[d as int] == k);
            } else if old(self).kinds().contains(k) {
                let j = choose|j: int| 0 <= j < old(self).kinds().len() && old(self).kinds()[j] == k;
                assert(kinds[j] == k);
            } else if kinds.contains(k) {
                let j = choose|j: int| 0 <= j < kinds.len() && kinds[j] == k;
                assert(old(self).kinds()[j] == k);
            }
        }
        assert forall|i: int|
            #![trigger kinds[i]]
            0 <= i < kinds.len() implies self.message_ids.left()[kinds[i].spec_id()] == i
                && self.message_ids.right().contains_key(i as usize)
                && self.message_ids.right()[i as usize] == kinds[i].spec_id() by {
            if i < d {
                assert(old(self).kinds()[i] == kinds[i]);
                assert(kinds[i] != kind);
            }
        }
        Ok(d)
    }

    /// The frame of `message`: its kind's discriminant, then its payload.
    pub fn prepare_send_buffer(&self, message: &Message) -> (r: Result<Vec<u8>, ProtocolError>)
        requires
            self.wf(),
        ensures
            match r {
                Ok(bytes) => exists|d: int|
                    0 <= d < self.kinds().len() && self.kinds()[d] == kind_of(message@) && bytes@
                        == #[trigger] frame_bytes(d, message@),
                Err(e) => e == ProtocolError::Unregistered && !self.kinds().contains(
                    kind_of(message@),
                ),
            },
    {
        let d = self.discriminant(message.kind())?;
        let mut buffer: Vec<u8> = Vec::new();
        put_u64(&mut buffer, d as u64);
        encode_payload(message, &mut buffer);
        assert(buffer@ =~= frame_bytes(d as int, message@));
        Ok(buffer)
    }

    /// Frames `message` and hands it, with `addr`, to `sender`. Fails with
    /// `Unregistered` exactly when the kind has no discriminant; otherwise
    /// the outcome is what the sender reports.
    pub fn send_reliable_unordered<A, S: Sender<(A, Vec<u8>)>>(
        &self,
        sender: &S,
        addr: A,
        message: &Message,
    ) -> (r: Result<(), ProtocolError>)
        requires
            self.wf(),
        ensures
            r == Err::<(), _>(ProtocolError::Unregistered) <==> !self.kinds().contains(
                kind_of(message@),
            ),
            r is Err ==> r == Err::<(), _>(ProtocolError::Unregistered) || r == Err::<(), _>(
                ProtocolError::SendFailure,
            ),
    {
        let buffer = self.prepare_send_buffer(message)?;
        send_outcome(sender.send((addr, buffer)))
    }

    /// Decodes one inbound frame and queues the message on the bus. What
    /// follows the payload is ignored. On any error nothing changes.
    pub fn receive(&mut self, bytes: &[u8]) -> (r: Result<(), ProtocolError>)
        requires
            old(self).wf(),
        ensures
            received(*old(self), *final(self), bytes@, r),
    {
        let ghost kinds = self.kinds();
        let d = match get_u64(bytes, 0) {
            Some(d) => d,
            None => {
                assert(!known_discriminant(kinds, bytes@));
                return Err(ProtocolError::Truncated);
            },
        };
        if d >= self.decoders.len() as u64 {
            assert forall|j: int| 0 <= j < kinds.len() implies !#[trigger] occurs_at(
                u64_bytes(j as u64),
                bytes@,
                0,
            ) by {
                if occurs_at(u64_bytes(j as u64), bytes@, 0) {
                    lemma_u64_bytes_injective(d, j as u64);
                }
            }
            return Err(ProtocolError::UnknownDiscriminant);
        }
        let kind = self.decoders[d as usize];
        assert(known_discriminant(kinds, bytes@)) by {
            assert(occurs_at(u64_bytes((d as int) as u64), bytes@, 0));
        }
        match decode_payload(kind, bytes, 8) {
            Some(m) => {
                let ghost v = m@;
                assert(decodes_to(kinds, bytes@, v)) by {
                    assert(occurs_at(u64_bytes((d as int) as u64), bytes@, 0));
                }
                let res = self.dispatcher.enqueue(Rc::new(m));
                assert(kinds[d as int] == kind_of(v));
                assert(res is Ok);
                Ok(())
            },
            None => {
                assert forall|v: MessageValue| !#[trigger] decodes_to(kinds, bytes@, v) by {
                    if decodes_to(kinds, bytes@, v) {
                        let j = choose|j: int|
                            0 <= j < kinds.len() && kinds[j] == kind_of(v) && #[trigger] occurs_at(
                                u64_bytes(j as u64),
                                bytes@,
                                0,
                            ) && occurs_at(payload_bytes(v), bytes@, 8);
                        lemma_u64_bytes_injective(d, j as u64);
                    }
                }
                Err(ProtocolError::DecodeFailure)
            },
        }
    }

    /// One transport event on the client side: a packet's payload is
    /// received as a frame; a connection or a timeout changes nothing.
    pub fn on_event(&mut self, event: &TransportEvent) -> (r: Result<(), ProtocolError>)
        requires
            old(self).wf(),
        ensures
            match event {
                TransportEvent::Packet(_, bytes) => received(*old(self), *final(self), bytes@, r),
                _ => r is Ok && *final(self) == *old(self),
            },
    {
        match event {
            TransportEvent::Packet(_, bytes) => self.receive(bytes.as_slice()),
            _ => Ok(()),
        }
    }

    /// Adds `handler` to the subscribers of `kind`.
    pub fn subscribe(&mut self, kind: MessageKind, handler: usize) -> (r: Result<(), ProtocolError>)
        requires
            old(self).wf(),
        ensures
            final(self).wf(),
            final(self).kinds() == old(self).kinds(),
            final(self).bus().pending() == old(self).bus().pending(),
            r is Ok <==> old(self).kinds().contains(kind),
            r is Err ==> r == Err::<(), _>(ProtocolError::Unregistered) && *final(self) == *old(self),
            final(self).bus().subscribers().len() == old(self).bus().subscribers().len(),
            forall|i: int|
                0 <= i < old(self).kinds().len() ==> #[trigger] final(self).bus().subscribers()[i]
                    == if old(self).kinds()[i] == kind {
                    old(self).bus().subscribers()[i].push(handler)
                } else {
                    old(self).bus().subscribers()[i]
                },
    {
        self.dispatcher.subscribe(kind, handler)
    }

    /// Empties the bus and returns the handler calls owed, in order.
    pub fn drain(&mut self) -> (calls: Vec<Call>)
        requires
            old(self).wf(),
        ensures
            final(self).wf(),
            final(self).kinds() == old(self).kinds(),
            final(self).bus().subscribers() == old(self).bus().subscribers(),
            final(self).bus().pending().len() == old(self).bus().pending().len(),
            forall|i: int|
                0 <= i < final(self).bus().pending().len() ==> #[trigger] final(self).bus().pending()[i]
                    == Seq::<MessageValue>::empty(),
            calls_view(calls@) == drain_calls(old(self).bus().subscribers(), old(self).bus().pending()),
    {
        self.dispatcher.drain()
    }
}

/// What `receive` does: on success exactly one message, the one the frame
/// decodes to, is appended to the queue of its kind; on failure nothing
/// changes, and the error says why.
pub open spec fn received(
    pre: SimpleProtocol,
    post: SimpleProtocol,
    bytes: Seq<u8>,
    r: Result<(), ProtocolError>,
) -> bool {
    &&& post.wf()
    &&& post.kinds() == pre.kinds()
    &&& post.bus().kinds() == pre.bus().kinds()
    &&& post.bus().subscribers() == pre.bus().subscribers()
    &&& match r {
        Ok(()) => exists|v: MessageValue|
            {
                &&& #[trigger] decodes_to(pre.kinds(), bytes, v)
                &&& post.bus().pending().len() == pre.bus().pending().len()
                &&& forall|i: int|
                    0 <= i < pre.kinds().len() ==> #[trigger] post.bus().pending()[i] == if pre.kinds()[i]
                        == kind_of(v) {
                        pre.bus().pending()[i].push(v)
                    } else {
                        pre.bus().pending()[i]
                    }
            },
        Err(e) => {
            &&& post == pre
            &&& e == ProtocolError::Truncated <==> bytes.len() < 8
            &&& e == ProtocolError::UnknownDiscriminant <==> (bytes.len() >= 8 && !known_discriminant(
                pre.kinds(),
                bytes,
            ))
            &&& e == ProtocolError::DecodeFailure <==> (known_discriminant(pre.kinds(), bytes)
                && forall|v: MessageValue| !#[trigger] decodes_to(pre.kinds(), bytes, v))
            &&& (e == ProtocolError::Truncated || e == ProtocolError::UnknownDiscriminant || e
                == ProtocolError::DecodeFailure)
        },
    }
}

/// Registers the three message kinds of the game, in the order both ends
/// of a connection use.
pub fn register_messages(protocol: &mut SimpleProtocol)
    requires
        old(protocol).wf(),
        old(protocol).kinds().len() == 0,
    ensures
        final(protocol).wf(),
        final(protocol).kinds() == seq![
            MessageKind::Greeting,
            MessageKind::GreetingResponse,
            MessageKind::PlayerStatus,
        ],
{
    let _ = protocol.register(MessageKind::Greeting);
    let _ = protocol.register(MessageKind::GreetingResponse);
    let _ = protocol.register(MessageKind::PlayerStatus);
    assert(protocol.kinds() =~= seq![
        MessageKind::Greeting,
        MessageKind::GreetingResponse,
        MessageKind::PlayerStatus,
    ]);
}

/// Registering distinct kinds one after another hands out the
/// discriminants 0, 1, 2, ... in call order, and each kind is then found at
/// its own discriminant and nowhere else.
pub proof fn lemma_registration_order(ks: Seq<MessageKind>)
    requires
        ks.no_duplicates(),
    ensures
        after_register_all(Seq::empty(), ks) == ks,
        forall|i: int| 0 <= i < ks.len() ==> #[trigger] register_result(ks.take(i), ks[i]) == Ok::<int, ProtocolError>(i),
        forall|i: int, d: int| 0 <= i < ks.len() && 0 <= d < ks.len() && ks[d] == ks[i] ==> d == i,
    decreases ks.len(),
{
    if ks.len() > 0 {
        let init = ks.drop_last();
        assert(init.no_duplicates());
        lemma_registration_order(init);
        assert(!init.contains(ks.last()));
        assert(init.push(ks.last()) =~= ks);
        assert forall|i: int| 0 <= i < ks.len() implies #[trigger] register_result(ks.take(i), ks[i])
            == Ok::<int, ProtocolError>(i) by {
            if i < init.len() {
                assert(ks.take(i) =~= init.take(i));
                assert(ks[i] == init[i]);
            } else {
                assert(ks.take(i) =~= init);
            }
        }
    }
}

/// Once a kind has been registered, registering it again fails with
/// `DuplicateRegistration`; before any registration every kind is
/// unregistered, so framing a message of it fails with `Unregistered`.
pub proof fn lemma_register_twice(kinds: Seq<MessageKind>, k: MessageKind)
    ensures
        register_result(after_register(kinds, k), k) == Err::<int, _>(
            ProtocolError::DuplicateRegistration,
        ),
        !Seq::<MessageKind>::empty().contains(k),
{
    assert(after_register(kinds, k).contains(k)) by {
        if !kinds.contains(k) {
            assert(kinds.push(k)[kinds.len() as int] == k);
        }
    }
}

/// A frame decodes to the message it was built from, whatever follows it,
/// and to no other message.
pub proof fn lemma_round_trip(kinds: Seq<MessageKind>, d: int, v: MessageValue, rest: Seq<u8>)
    requires
        kinds.no_duplicates(),
        kinds.len() <= usize::MAX,
        0 <= d < kinds.len(),
        kinds[d] == kind_of(v),
        frame_bytes(d, v).len() + rest.len() <= u64::MAX,
    ensures
        decodes_to(kinds, frame_bytes(d, v) + rest, v),
        forall|w: MessageValue| #[trigger] decodes_to(kinds, frame_bytes(d, v) + rest, w) ==> w == v,
{
    let bytes = frame_bytes(d, v) + rest;
    let n = payload_bytes(v).len() as int;
    assert(bytes.subrange(0, 8) =~= u64_bytes(d as u64));
    assert(bytes.subrange(8, 8 + n) =~= payload_bytes(v));
    assert(occurs_at(u64_bytes(d as u64), bytes, 0));
    assert forall|w: MessageValue| #[trigger] decodes_to(kinds, bytes, w) implies w == v by {
        let j = choose|j: int|
            0 <= j < kinds.len() && kinds[j] == kind_of(w) && #[trigger] occurs_at(
                u64_bytes(j as u64),
                bytes,
                0,
            ) && occurs_at(payload_bytes(w), bytes, 8);
        lemma_u64_bytes_injective(j as u64, d as u64);
        assert(j == d);
        lemma_payload_unique(v, w, bytes, 8);
    }
}

/// A frame whose discriminant is not below the number of registered kinds
/// has no known discriminant, so `receive` refuses it with
/// `UnknownDiscriminant` and leaves the bus alone.
pub proof fn lemma_discriminant_past_table(kinds: Seq<MessageKind>, d: u64, bytes: Seq<u8>)
    requires
        d >= kinds.len(),
        occurs_at(u64_bytes(d), bytes, 0),
    ensures
        bytes.len() >= 8,
        !known_discriminant(kinds, bytes),
{
    assert forall|j: int| 0 <= j < kinds.len() implies !#[trigger] occurs_at(
        u64_bytes(j as u64),
        bytes,
        0,
    ) by {
        if occurs_at(u64_bytes(j as u64), bytes, 0) {
            lemma_u64_bytes_injective(d, j as u64);
        }
    }
}

/// What a send reports to its caller, given what the transport said.
pub fn send_outcome<E>(sent: Result<(), E>) -> (r: Result<(), ProtocolError>)
    ensures
        sent is Ok ==> r is Ok,
        sent is Err ==> r == Err::<(), _>(ProtocolError::SendFailure),
{
    match sent {
        Ok(()) => Ok(()),
        Err(_) => Err(ProtocolError::SendFailure),
    }
}

} // verus!