//! The fixed binary encoding of the values that make up a frame: integers
//! as eight little-endian bytes, single bytes as themselves, booleans as one
//! byte, text as its UTF-8 length followed by its UTF-8 bytes. The bytes are
//! produced and read by bincode's default configuration.
use vstd::prelude::*;
use vstd::utf8::*;

verus! {

/// The eight bytes of `v`, least significant first.
pub open spec fn u64_bytes(v: u64) -> Seq<u8> {
    seq![
        v as u8,
        (v >> 8u64) as u8,
        (v >> 16u64) as u8,
        (v >> 24u64) as u8,
        (v >> 32u64) as u8,
        (v >> 40u64) as u8,
        (v >> 48u64) as u8,
        (v >> 56u64) as u8,
    ]
}

/// The byte that stands for a boolean.
pub open spec fn bool_byte(b: bool) -> u8 {
    if b { 1u8 } else { 0u8 }
}

/// A piece of text: the length of its UTF-8 form, then that form.
pub open spec fn text_bytes(s: Seq<char>) -> Seq<u8> {
    u64_bytes((#[verifier::truncate] (encode_utf8(s).len() as u64))) + encode_utf8(s)
}

/// `part` stands in `bytes` from position `pos` on.
pub open spec fn occurs_at(part: Seq<u8>, bytes: Seq<u8>, pos: int) -> bool {
    &&& 0 <= pos
    &&& pos + part.len() <= bytes.len()
    &&& bytes.subrange(pos, pos + part.len()) == part
}

/// Distinct integers have distinct encodings.
pub proof fn lemma_u64_bytes_injective(a: u64, b: u64)
    requires
        u64_bytes(a) == u64_bytes(b),
    ensures
        a == b,
{
    let (x, y) = (u64_bytes(a), u64_bytes(b));
    assert(x[0] == y[0] && x[1] == y[1] && x[2] == y[2] && x[3] == y[3]);
    assert(x[4] == y[4] && x[5] == y[5] && x[6] == y[6] && x[7] == y[7]);
    assert(a == b) by (bit_vector)
        requires
            a as u8 == b as u8,
            (a >> 8u64) as u8 == (b >> 8u64) as u8,
            (a >> 16u64) as u8 == (b >> 16u64) as u8,
            (a >> 24u64) as u8 == (b >> 24u64) as u8,
            (a >> 32u64) as u8 == (b >> 32u64) as u8,
            (a >> 40u64) as u8 == (b >> 40u64) as u8,
            (a >> 48u64) as u8 == (b >> 48u64) as u8,
            (a >> 56u64) as u8 == (b >> 56u64) as u8,
    ;
}

/// Distinct texts have distinct encodings.
pub proof fn lemma_text_bytes_injective(s: Seq<char>, t: Seq<char>)
    requires
        text_bytes(s) == text_bytes(t),
    ensures
        s == t,
{
    let (es, et) = (encode_utf8(s), encode_utf8(t));
    assert(u64_bytes(es.len() as u64) == text_bytes(s).subrange(0, 8));
    assert(u64_bytes(et.len() as u64) == text_bytes(t).subrange(0, 8));
    lemma_u64_bytes_injective(es.len() as u64, et.len() as u64);
    assert(es == text_bytes(s).subrange(8, text_bytes(s).len() as int));
    assert(et == text_bytes(t).subrange(8, text_bytes(t).len() as int));
    encode_utf8_decode_utf8(s);
    encode_utf8_decode_utf8(t);
}

/// Relies on bincode::serialize_into (default configuration: fixed-width
/// little-endian integers, no size limit): a `u64` is written as its eight
/// bytes, least significant first. Writing into a `Vec` cannot fail.
#[verifier::external_body]
pub(crate) fn put_u64(buf: &mut Vec<u8>, v: u64)
    ensures
        final(buf)@ == old(buf)@ + u64_bytes(v),
{
    let _ = bincode::serialize_into(buf, &v);
}

/// Relies on bincode::serialize_into: a `u8` is written as that one byte.
#[verifier::external_body]
pub(crate) fn put_u8(buf: &mut Vec<u8>, v: u8)
    ensures
        final(buf)@ == old(buf)@.push(v),
{
    let _ = bincode::serialize_into(buf, &v);
}

/// Relies on bincode::serialize_into: a `bool` is written as one byte, 1 for
/// true and 0 for false.
#[verifier::external_body]
pub(crate) fn put_bool(buf: &mut Vec<u8>, v: bool)
    ensures
        final(buf)@ == old(buf)@.push(bool_byte(v)),
{
    let _ = bincode::serialize_into(buf, &v);
}

/// Relies on bincode::serialize_into: a `str` is written as its UTF-8 length
/// (a fixed-width `u64`) followed by its UTF-8 bytes.
#[verifier::external_body]
pub(crate) fn put_text(buf: &mut Vec<u8>, s: &str)
    ensures
        final(buf)@ == old(buf)@ + text_bytes(s@),
{
    let _ = bincode::serialize_into(buf, s);
}

/// Relies on bincode::deserialize::<u64> on the bytes from `pos` on: it reads
/// eight little-endian bytes, ignores what follows, and fails only when fewer
/// than eight are there.
#[verifier::external_body]
pub(crate) fn get_u64(bytes: &[u8], pos: usize) -> (r: Option<u64>)
    requires
        pos <= bytes@.len(),
    ensures
        match r {
            Some(v) => occurs_at(u64_bytes(v), bytes@, pos as int),
            None => pos + 8 > bytes@.len(),
        },
{
    bincode::deserialize::<u64>(&bytes[pos..]).ok()
}

/// Relies on bincode::deserialize::<u8>: it reads one byte and fails only
/// when none is there.
#[verifier::external_body]
pub(crate) fn get_u8(bytes: &[u8], pos: usize) -> (r: Option<u8>)
    requires
        pos <= bytes@.len(),
    ensures
        match r {
            Some(v) => pos < bytes@.len() && bytes@[pos as int] == v,
            None => pos == bytes@.len(),
        },
{
    bincode::deserialize::<u8>(&bytes[pos..]).ok()
}

/// Relies on bincode::deserialize::<bool>: it reads one byte, takes 1 as true
/// and 0 as false, and fails on any other byte or when none is there.
#[verifier::external_body]
pub(crate) fn get_bool(bytes: &[u8], pos: usize) -> (r: Option<bool>)
    requires
        pos <= bytes@.len(),
    ensures
        match r {
            Some(v) => pos < bytes@.len() && bytes@[pos as int] == bool_byte(v),
            None => pos == bytes@.len() || bytes@[pos as int] > 1,
        },
{
    bincode::deserialize::<bool>(&bytes[pos..]).ok()
}

/// Relies on bincode::deserialize::<String>: it reads a fixed-width length,
/// then that many bytes, and fails when they are missing or are not UTF-8.
#[verifier::external_body]
pub(crate) fn get_text(bytes: &[u8], pos: usize) -> (r: Option<String>)
    requires
        pos <= bytes@.len(),
    ensures
        match r {
            Some(s) => occurs_at(text_bytes(s@), bytes@, pos as int),
            None => forall|t: Seq<char>| !occurs_at(#[trigger] text_bytes(t), bytes@, pos as int),
        },
{
    bincode::deserialize::<String>(&bytes[pos..]).ok()
}

} // verus!
