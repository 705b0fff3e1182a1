//! The messages that client and server exchange, and the payload encoding
//! of each.
use vstd::prelude::*;
use crate::wire::{
    bool_byte, get_bool, get_text, get_u64, get_u8, lemma_text_bytes_injective,
    lemma_u64_bytes_injective, occurs_at, put_bool, put_text, put_u64, put_u8, text_bytes, u64_bytes,
};

verus! {

/// The identity of a message type, used as a key when kinds are registered
/// and when subscribers are attached.
#[derive(Clone, Copy, PartialEq, Eq, Structural, Debug)]
pub enum MessageKind {
    Greeting,
    GreetingResponse,
    PlayerStatus,
}

impl MessageKind {
    pub open spec fn spec_id(self) -> u64 {
        match self {
            MessageKind::Greeting => 0,
            MessageKind::GreetingResponse => 1,
            MessageKind::PlayerStatus => 2,
        }
    }

    /// The key under which this kind is kept in a registry.
    pub fn id(&self) -> (r: u64)
        ensures
            r == self.spec_id(),
    {
        match self {
            MessageKind::Greeting => 0,
            MessageKind::GreetingResponse => 1,
            MessageKind::PlayerStatus => 2,
        }
    }
}

/// Distinct kinds have distinct keys.
pub proof fn lemma_kind_id_injective(a: MessageKind, b: MessageKind)
    ensures
        a.spec_id() == b.spec_id() <==> a == b,
{
}

/// Sent by a client when it joins.
#[derive(Clone, PartialEq, Eq, Debug)]
pub struct Greeting {
    pub name: String,
}

/// Sent by the server to a newly connected client, with its identifier.
#[derive(Clone, Copy, PartialEq, Eq, Structural, Debug)]
pub struct GreetingResponse {
    pub player_id: usize,
}

/// A player's position, facing angle, colour and holster flag. The three
/// real-valued fields hold the IEEE-754 bit patterns of 64-bit floats.
#[derive(Clone, Copy, PartialEq, Eq, Structural, Debug)]
pub struct PlayerStatus {
    pub player_id: usize,
    pub x: u64,
    pub y: u64,
    pub angle: u64,
    pub r: u8,
    pub g: u8,
    pub b: u8,
    pub holster: bool,
}

/// One message of any kind.
#[derive(Clone, PartialEq, Eq, Debug)]
pub enum Message {
    Greeting(Greeting),
    GreetingResponse(GreetingResponse),
    PlayerStatus(PlayerStatus),
}

/// The mathematical value of a message: text as a sequence of characters.
pub enum MessageValue {
    Greeting { name: Seq<char> },
    GreetingResponse(GreetingResponse),
    PlayerStatus(PlayerStatus),
}

impl View for Message {
    type V = MessageValue;

    open spec fn view(&self) -> MessageValue {
        match self {
            Message::Greeting(g) => MessageValue::Greeting { name: g.name@ },
            Message::GreetingResponse(r) => MessageValue::GreetingResponse(*r),
            Message::PlayerStatus(p) => MessageValue::PlayerStatus(*p),
        }
    }
}

pub open spec fn kind_of(v: MessageValue) -> MessageKind {
    match v {
        MessageValue::Greeting { .. } => MessageKind::Greeting,
        MessageValue::GreetingResponse(_) => MessageKind::GreetingResponse,
        MessageValue::PlayerStatus(_) => MessageKind::PlayerStatus,
    }
}

/// The payload of a player status: its fields in declaration order.
pub open spec fn status_bytes(p: PlayerStatus) -> Seq<u8> {
    u64_bytes(p.player_id as u64) + (u64_bytes(p.x) + (u64_bytes(p.y) + (u64_bytes(p.angle)
        + seq![p.r, p.g, p.b, bool_byte(p.holster)])))
}

/// The payload bytes of a message, without any discriminant.
pub open spec fn payload_bytes(v: MessageValue) -> Seq<u8> {
    match v {
        MessageValue::Greeting { name } => text_bytes(name),
        MessageValue::GreetingResponse(r) => u64_bytes(r.player_id as u64),
        MessageValue::PlayerStatus(p) => status_bytes(p),
    }
}

/// Every player status takes the same number of bytes.
pub proof fn lemma_status_len(p: PlayerStatus)
    ensures
        status_bytes(p).len() == 36,
{
}

/// At most one message of a kind has its payload at a given place.
pub proof fn lemma_payload_unique(v: MessageValue, w: MessageValue, bytes: Seq<u8>, pos: int)
    requires
        kind_of(v) == kind_of(w),
        occurs_at(payload_bytes(v), bytes, pos),
        occurs_at(payload_bytes(w), bytes, pos),
        bytes.len() <= u64::MAX,
    ensures
        v == w,
{
    match (v, w) {
        (MessageValue::Greeting { name: a }, MessageValue::Greeting { name: b }) => {
            let (ea, eb) = (text_bytes(a), text_bytes(b));
            assert(vstd::utf8::encode_utf8(a).len() < ea.len() <= bytes.len());
            assert(vstd::utf8::encode_utf8(b).len() < eb.len() <= bytes.len());
            assert(ea.subrange(0, 8) == bytes.subrange(pos, pos + 8));
            assert(eb.subrange(0, 8) == bytes.subrange(pos, pos + 8));
            assert(ea.subrange(0, 8) == u64_bytes(vstd::utf8::encode_utf8(a).len() as u64));
            assert(eb.subrange(0, 8) == u64_bytes(vstd::utf8::encode_utf8(b).len() as u64));
            lemma_u64_bytes_injective(
                vstd::utf8::encode_utf8(a).len() as u64,
                vstd::utf8::encode_utf8(b).len() as u64,
            );
            lemma_text_bytes_injective(a, b);
        },
        (MessageValue::GreetingResponse(a), MessageValue::GreetingResponse(b)) => {
            lemma_u64_bytes_injective(a.player_id as u64, b.player_id as u64);
        },
        (MessageValue::PlayerStatus(a), MessageValue::PlayerStatus(b)) => {
            let (sa, sb) = (status_bytes(a), status_bytes(b));
            assert(sa == sb);
            assert(sa.subrange(0, 8) == u64_bytes(a.player_id as u64));
            assert(sb.subrange(0, 8) == u64_bytes(b.player_id as u64));
            lemma_u64_bytes_injective(a.player_id as u64, b.player_id as u64);
            assert(sa.subrange(8, 16) == u64_bytes(a.x));
            assert(sb.subrange(8, 16) == u64_bytes(b.x));
            lemma_u64_bytes_injective(a.x, b.x);
            assert(sa.subrange(16, 24) == u64_bytes(a.y));
            assert(sb.subrange(16, 24) == u64_bytes(b.y));
            lemma_u64_bytes_injective(a.y, b.y);
            assert(sa.subrange(24, 32) == u64_bytes(a.angle));
            assert(sb.subrange(24, 32) == u64_bytes(b.angle));
            lemma_u64_bytes_injective(a.angle, b.angle);
            assert(sa[32] == sb[32] && sa[33] == sb[33] && sa[34] == sb[34] && sa[35] == sb[35]);
        },
        _ => {},
    }
}

impl Message {
    pub open spec fn spec_kind(&self) -> MessageKind {
        kind_of(self@)
    }

    pub fn kind(&self) -> (k: MessageKind)
        ensures
            k == self.spec_kind(),
    {
        match self {
            Message::Greeting(_) => MessageKind::Greeting,
            Message::GreetingResponse(_) => MessageKind::GreetingResponse,
            Message::PlayerStatus(_) => MessageKind::PlayerStatus,
        }
    }
}

/// Appends the payload of `m` to `buf`.
pub fn encode_payload(m: &Message, buf: &mut Vec<u8>)
    ensures
        final(buf)@ == old(buf)@ + payload_bytes(m@),
{
    match m {
        Message::Greeting(g) => {
            put_text(buf, g.name.as_str());
        },
        Message::GreetingResponse(r) => {
            put_u64(buf, r.player_id as u64);
        },
        Message::PlayerStatus(p) => {
            let ghost start = buf@;
            put_u64(buf, p.player_id as u64);
            put_u64(buf, p.x);
            put_u64(buf, p.y);
            put_u64(buf, p.angle);
            put_u8(buf, p.r);
            put_u8(buf, p.g);
            put_u8(buf, p.b);
            put_bool(buf, p.holster);
            assert(buf@ =~= start + status_bytes(*p));
        },
    }
}

/// Reads the text of a greeting at `pos`.
fn decode_greeting(bytes: &[u8], pos: usize) -> (r: Option<Greeting>)
    requires
        pos <= bytes@.len(),
    ensures
        match r {
            Some(g) => occurs_at(text_bytes(g.name@), bytes@, pos as int),
            None => forall|t: Seq<char>| !occurs_at(#[trigger] text_bytes(t), bytes@, pos as int),
        },
{
    match get_text(bytes, pos) {
        Some(name) => Some(Greeting { name }),
        None => None,
    }
}

/// Reads the identifier of a greeting response at `pos`.
fn decode_response(bytes: &[u8], pos: usize) -> (r: Option<GreetingResponse>)
    requires
        pos <= bytes@.len(),
    ensures
        match r {
            Some(g) => occurs_at(u64_bytes(g.player_id as u64), bytes@, pos as int),
            None => forall|g: GreetingResponse|
                !occurs_at(#[trigger] u64_bytes(g.player_id as u64), bytes@, pos as int),
        },
{
    match get_u64(bytes, pos) {
        Some(v) => {
            if v <= usize::MAX as u64 {
                Some(GreetingResponse { player_id: v as usize })
            } else {
                assert forall|g: GreetingResponse|
                    !occurs_at(#[trigger] u64_bytes(g.player_id as u64), bytes@, pos as int) by {
                    if occurs_at(u64_bytes(g.player_id as u64), bytes@, pos as int) {
                        lemma_u64_bytes_injective(v, g.player_id as u64);
                    }
                }
                None
            }
        },
        None => None,
    }
}

/// Reads a player status at `pos`.
fn decode_status(bytes: &[u8], pos: usize) -> (r: Option<PlayerStatus>)
    requires
        pos <= bytes@.len(),
    ensures
        match r {
            Some(p) => occurs_at(status_bytes(p), bytes@, pos as int),
            None => forall|q: PlayerStatus| !occurs_at(#[trigger] status_bytes(q), bytes@, pos as int),
        },
{
    if bytes.len() - pos < 36 {
        assert forall|q: PlayerStatus| !occurs_at(#[trigger] status_bytes(q), bytes@, pos as int) by {
            lemma_status_len(q);
        }
        return None;
    }
    let player_id = get_u64(bytes, pos);
    let x = get_u64(bytes, pos + 8);
    let y = get_u64(bytes, pos + 16);
    let angle = get_u64(bytes, pos + 24);
    let r = get_u8(bytes, pos + 32);
    let g = get_u8(bytes, pos + 33);
    let b = get_u8(bytes, pos + 34);
    let holster = get_bool(bytes, pos + 35);
    match (player_id, x, y, angle, r, g, b, holster) {
        (Some(id), Some(x), Some(y), Some(angle), Some(r), Some(g), Some(b), Some(holster)) => {
            if id <= usize::MAX as u64 {
                let p = PlayerStatus { player_id: id as usize, x, y, angle, r, g, b, holster };
                assert(bytes@.subrange(pos as int, pos + 36) =~= status_bytes(p));
                Some(p)
            } else {
                assert forall|q: PlayerStatus|
                    !occurs_at(#[trigger] status_bytes(q), bytes@, pos as int) by {
                    if occurs_at(status_bytes(q), bytes@, pos as int) {
                        assert(status_bytes(q).subrange(0, 8) == u64_bytes(q.player_id as u64));
                        assert(bytes@.subrange(pos as int, pos + 8) == status_bytes(q).subrange(0, 8));
                        lemma_u64_bytes_injective(id, q.player_id as u64);
                    }
                }
                None
            }
        },
        _ => {
            assert forall|q: PlayerStatus|
                !occurs_at(#[trigger] status_bytes(q), bytes@, pos as int) by {
                if occurs_at(status_bytes(q), bytes@, pos as int) {
                    assert(status_bytes(q)[35] == bool_byte(q.holster));
                    assert(bytes@[pos + 35] == status_bytes(q)[35]);
                }
            }
            None
        },
    }
}

/// Reads a payload of kind `kind` that starts at `pos`; what follows it is
/// left alone. Fails exactly when no message of that kind has its payload
/// there.
pub fn decode_payload(kind: MessageKind, bytes: &[u8], pos: usize) -> (r: Option<Message>)
    requires
        pos <= bytes@.len(),
    ensures
        match r {
            Some(m) => kind_of(m@) == kind && occurs_at(payload_bytes(m@), bytes@, pos as int),
            None => forall|v: MessageValue|
                kind_of(v) == kind ==> !occurs_at(#[trigger] payload_bytes(v), bytes@, pos as int),
        },
{
    match kind {
        MessageKind::Greeting => match decode_greeting(bytes, pos) {
            Some(g) => Some(Message::Greeting(g)),
            None => {
                assert forall|v: MessageValue|
                    kind_of(v) == kind implies !occurs_at(
                    #[trigger] payload_bytes(v),
                    bytes@,
                    pos as int,
                ) by {
                    if let MessageValue::Greeting { name } = v {
                        assert(payload_bytes(v) == text_bytes(name));
                    }
                }
                None
            },
        },
        MessageKind::GreetingResponse => match decode_response(bytes, pos) {
            Some(g) => Some(Message::GreetingResponse(g)),
            None => {
                assert forall|v: MessageValue|
                    kind_of(v) == kind implies !occurs_at(
                    #[trigger] payload_bytes(v),
                    bytes@,
                    pos as int,
                ) by {
                    if let MessageValue::GreetingResponse(g) = v {
                        assert(payload_bytes(v) == u64_bytes(g.player_id as u64));
                    }
                }
                None
            },
        },
        MessageKind::PlayerStatus => match decode_status(bytes, pos) {
            Some(p) => Some(Message::PlayerStatus(p)),
            None => {
                assert forall|v: MessageValue|
                    kind_of(v) == kind implies !occurs_at(
                    #[trigger] payload_bytes(v),
                    bytes@,
                    pos as int,
                ) by {
                    if let MessageValue::PlayerStatus(q) = v {
                        assert(payload_bytes(v) == status_bytes(q));
                    }
                }
                None
            },
        },
    }
}

} // verus!
