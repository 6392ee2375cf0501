//! The framing of sway IPC messages: a 14-byte header (the `i3-ipc`
//! magic, the payload length and the message type, both 32-bit in the
//! machine's byte order), then the payload.
use vstd::prelude::*;
use crate::config::IPC_MAGIC;

verus! {

/// The byte order of the machine, which sway's IPC uses for the header
/// integers.
#[derive(Debug, Clone, Copy, PartialEq, Eq, Structural)]
pub enum ByteOrder {
    Little,
    Big,
}

/// The four bytes of `x` in the given order.
pub open spec fn u32_bytes(x: u32, order: ByteOrder) -> Seq<u8> {
    let b0 = (x % 256) as u8;
    let b1 = ((x / 256) % 256) as u8;
    let b2 = ((x / 65536) % 256) as u8;
    let b3 = (x / 16777216) as u8;
    match order {
        ByteOrder::Little => seq![b0, b1, b2, b3],
        ByteOrder::Big => seq![b3, b2, b1, b0],
    }
}

/// The number four bytes stand for in the given order.
pub open spec fn u32_of_bytes(b: Seq<u8>, order: ByteOrder) -> int {
    match order {
        ByteOrder::Little => b[0] + 256 * b[1] + 65536 * b[2] + 16777216 * b[3],
        ByteOrder::Big => b[3] + 256 * b[2] + 65536 * b[1] + 16777216 * b[0],
    }
}

/// The magic bytes as a sequence.
pub open spec fn magic() -> Seq<u8> {
    seq![105u8, 51u8, 45u8, 105u8, 112u8, 99u8]
}

/// The header value of the payload length: the length taken modulo 2^32.
pub open spec fn length_field(len: nat) -> u32 {
    (len % 0x1_0000_0000) as u32
}

/// The bytes of a message of type `msg_type` carrying `payload`.
pub open spec fn message_bytes(msg_type: u32, payload: Seq<u8>, order: ByteOrder) -> Seq<u8> {
    magic() + u32_bytes(length_field(payload.len()), order) + u32_bytes(msg_type, order) + payload
}

fn push_u32(buf: &mut Vec<u8>, x: u32, order: ByteOrder)
    ensures
        final(buf)@ == old(buf)@ + u32_bytes(x, order),
{
    let b0: u8 = (x & 0xff) as u8;
    let b1: u8 = ((x >> 8u32) & 0xff) as u8;
    let b2: u8 = ((x >> 16u32) & 0xff) as u8;
    let b3: u8 = (x >> 24u32) as u8;
    assert(x & 0xff == x % 256) by (bit_vector);
    assert((x >> 8u32) & 0xff == (x / 256) % 256) by (bit_vector);
    assert((x >> 16u32) & 0xff == (x / 65536) % 256) by (bit_vector);
    assert(x >> 24u32 == x / 16777216) by (bit_vector);
    match order {
        ByteOrder::Little => {
            buf.push(b0);
            buf.push(b1);
            buf.push(b2);
            buf.push(b3);
        },
        ByteOrder::Big => {
            buf.push(b3);
            buf.push(b2);
            buf.push(b1);
            buf.push(b0);
        },
    }
    assert(final(buf)@ =~= old(buf)@ + u32_bytes(x, order));
}

/// Frames a message: the header, then the payload. As in sway's protocol,
/// the length field holds the payload length modulo 2^32.
pub fn encode_message(msg_type: u32, payload: &[u8], order: ByteOrder) -> (r: Vec<u8>)
    ensures
        r@ == message_bytes(msg_type, payload@, order),
{
    let mut buf: Vec<u8> = Vec::new();
    let mut i: usize = 0;
    while i < 6
        invariant
            i <= 6,
            buf@ == magic().take(i as int),
        decreases 6 - i,
    {
        buf.push(IPC_MAGIC[i]);
        assert(buf@ =~= magic().take(i + 1));
        i = i + 1;
    }
    assert(magic().take(6) =~= magic());
    let len: u64 = payload.len() as u64;
    let field: u32 = (len % 0x1_0000_0000u64) as u32;
    push_u32(&mut buf, field, order);
    push_u32(&mut buf, msg_type, order);
    let ghost head = buf@;
    let mut k: usize = 0;
    while k < payload.len()
        invariant
            k <= payload.len(),
            buf@ == head + payload@.take(k as int),
        decreases payload.len() - k,
    {
        buf.push(payload[k]);
        assert(buf@ =~= head + payload@.take(k + 1));
        k = k + 1;
    }
    assert(payload@.take(payload.len() as int) =~= payload@);
    assert(buf@ =~= message_bytes(msg_type, payload@, order));
    buf
}

fn u32_from(b0: u8, b1: u8, b2: u8, b3: u8) -> (r: u32)
    ensures
        r == b0 + 256 * b1 + 65536 * b2 + 16777216 * b3,
{
    let v: u64 = b0 as u64 + (b1 as u64) * 256 + (b2 as u64) * 65536 + (b3 as u64) * 16777216;
    v as u32
}

/// Reads the payload length and the message type from a header.
pub fn decode_header(header: &[u8; 14], order: ByteOrder) -> (r: (u32, u32))
    ensures
        r.0 == u32_of_bytes(header@.subrange(6, 10), order),
        r.1 == u32_of_bytes(header@.subrange(10, 14), order),
{
    match order {
        ByteOrder::Little => (
            u32_from(header[6], header[7], header[8], header[9]),
            u32_from(header[10], header[11], header[12], header[13]),
        ),
        ByteOrder::Big => (
            u32_from(header[9], header[8], header[7], header[6]),
            u32_from(header[13], header[12], header[11], header[10]),
        ),
    }
}

proof fn lemma_u32_roundtrip(x: u32, order: ByteOrder)
    ensures
        u32_of_bytes(u32_bytes(x, order), order) == x,
{
    assert(x == (x % 256) + 256 * ((x / 256) % 256) + 65536 * ((x / 65536) % 256) + 16777216 * (x
        / 16777216)) by (nonlinear_arith);
}

/// Reading back the header of a framed message gives the length field and
/// the type it was framed with, in either byte order.
pub proof fn law_header_roundtrip(msg_type: u32, payload: Seq<u8>, order: ByteOrder)
    ensures
        u32_of_bytes(message_bytes(msg_type, payload, order).subrange(6, 10), order) == length_field(
            payload.len(),
        ),
        u32_of_bytes(message_bytes(msg_type, payload, order).subrange(10, 14), order) == msg_type,
        message_bytes(msg_type, payload, order).subrange(0, 6) == magic(),
        message_bytes(msg_type, payload, order).subrange(14, 14 + payload.len() as int) == payload,
{
    let m = message_bytes(msg_type, payload, order);
    lemma_u32_roundtrip(length_field(payload.len()), order);
    lemma_u32_roundtrip(msg_type, order);
    assert(m.subrange(6, 10) =~= u32_bytes(length_field(payload.len()), order));
    assert(m.subrange(10, 14) =~= u32_bytes(msg_type, order));
    assert(m.subrange(0, 6) =~= magic());
    assert(m.subrange(14, 14 + payload.len() as int) =~= payload);
}

} // verus!
