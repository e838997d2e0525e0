//! The length-prefixed message envelope of gRPC: one flag byte, which is
//! always zero because nothing here compresses, four bytes of big-endian
//! payload length, then the payload.

use bytes::Bytes;
use vstd::arithmetic::div_mod::{
    lemma_div_denominator, lemma_fundamental_div_mod, lemma_fundamental_div_mod_converse,
};
use vstd::prelude::*;
use vstd::slice::slice_subrange;

verus! {

/// `bytes::Bytes`, a shared buffer of bytes. Of a value nothing is known but
/// what [`bytes_of`] says.
#[verifier::external_type_specification]
#[verifier::external_body]
pub struct ExBytes(bytes::Bytes);

/// The bytes that a [`Bytes`] buffer holds, in order.
pub uninterp spec fn bytes_of(buffer: Bytes) -> Seq<u8>;

/// `Bytes::from(Vec<u8>)`: the buffer takes over the vector and holds
/// exactly its bytes.
#[verifier::external_body]
pub(crate) fn bytes_from_vec(data: Vec<u8>) -> (buffer: Bytes)
    ensures
        bytes_of(buffer) == data@,
{
    Bytes::from(data)
}

/// `<Bytes as AsRef<[u8]>>::as_ref`: the slice of all bytes that the buffer
/// holds.
#[verifier::external_body]
pub(crate) fn bytes_as_slice(buffer: &Bytes) -> (data: &[u8])
    ensures
        data@ == bytes_of(*buffer),
{
    buffer.as_ref()
}

/// `<Bytes as Clone>::clone`: a second handle to the same bytes.
pub assume_specification[ <Bytes as Clone>::clone ](buffer: &Bytes) -> (copy: Bytes)
    ensures
        bytes_of(copy) == bytes_of(*buffer),
;

/// Number of bytes in front of each payload.
pub const HEADER_LEN: usize = 5;

/// One more than the longest payload length that four bytes can count.
pub open spec fn length_modulus() -> int {
    0x1_0000_0000
}

/// The four bytes of `n`, most significant first.
pub open spec fn be32(n: u32) -> Seq<u8> {
    seq![
        (n / 0x100_0000) as u8,
        (n / 0x1_0000 % 0x100) as u8,
        (n / 0x100 % 0x100) as u8,
        (n % 0x100) as u8,
    ]
}

/// The number that four bytes spell, most significant first.
pub open spec fn be32_value(b: Seq<u8>) -> int
    recommends
        b.len() == 4,
{
    b[0] * 0x100_0000 + b[1] * 0x1_0000 + b[2] * 0x100 + b[3]
}

/// The frame that carries `payload`. A payload too long for the four length
/// bytes has its length written modulo 2^32.
pub open spec fn frame(payload: Seq<u8>) -> Seq<u8> {
    seq![0u8] + be32((payload.len() as int % length_modulus()) as u32) + payload
}

/// The frames of `chunks`, one after the other.
pub open spec fn frames(chunks: Seq<Seq<u8>>) -> Seq<u8> {
    chunks.map_values(|chunk: Seq<u8>| frame(chunk)).flatten()
}

/// Whether every chunk is short enough for its length to be written exactly.
pub open spec fn framable(chunks: Seq<Seq<u8>>) -> bool {
    forall|i: int| 0 <= i < chunks.len() ==> (#[trigger] chunks[i]).len() < length_modulus()
}

/// Puts `rest` behind `head` where there is a `rest`.
pub open spec fn prepend(head: Seq<u8>, rest: Option<Seq<u8>>) -> Option<Seq<u8>> {
    match rest {
        Some(tail) => Some(head + tail),
        None => None,
    }
}

/// The payloads of a run of frames, joined, with the envelopes taken off.
/// `None` where `wire` is not a run of whole uncompressed frames.
pub open spec fn strip_frames(wire: Seq<u8>) -> Option<Seq<u8>>
    decreases wire.len(),
{
    if wire.len() == 0 {
        Some(Seq::empty())
    } else if wire.len() < 5 || wire[0] != 0 {
        None
    } else {
        let n = be32_value(wire.subrange(1, 5));
        if 5 + n > wire.len() {
            None
        } else {
            prepend(wire.subrange(5, 5 + n), strip_frames(wire.skip(5 + n)))
        }
    }
}

/// Four length bytes spell the number they were written from.
pub proof fn lemma_be32_value(n: u32)
    ensures
        be32(n).len() == 4,
        be32_value(be32(n)) == n,
{
    let q1 = n as int / 0x100;
    let q2 = n as int / 0x1_0000;
    let q3 = n as int / 0x100_0000;
    lemma_fundamental_div_mod(n as int, 0x100);
    lemma_fundamental_div_mod(q1, 0x100);
    lemma_fundamental_div_mod(q2, 0x100);
    lemma_div_denominator(n as int, 0x100, 0x100);
    lemma_div_denominator(n as int, 0x1_0000, 0x100);
    assert(q1 / 0x100 == q2);
    assert(q2 / 0x100 == q3);
    assert(0 <= q3 < 0x100);
}

/// Four bytes are the length bytes of the number they spell.
pub proof fn lemma_be32_of_value(b: Seq<u8>)
    requires
        b.len() == 4,
    ensures
        0 <= be32_value(b) < length_modulus(),
        be32(be32_value(b) as u32) == b,
{
    let (b0, b1, b2, b3) = (b[0] as int, b[1] as int, b[2] as int, b[3] as int);
    let n = be32_value(b);
    lemma_fundamental_div_mod_converse(n, 0x100_0000, b0, b1 * 0x1_0000 + b2 * 0x100 + b3);
    lemma_fundamental_div_mod_converse(n, 0x1_0000, b0 * 0x100 + b1, b2 * 0x100 + b3);
    lemma_fundamental_div_mod_converse(n, 0x100, b0 * 0x1_0000 + b1 * 0x100 + b2, b3);
    lemma_fundamental_div_mod_converse(b0 * 0x100 + b1, 0x100, b0, b1);
    lemma_fundamental_div_mod_converse(b0 * 0x1_0000 + b1 * 0x100 + b2, 0x100, b0 * 0x100 + b1, b2);
    let m = n as u32;
    assert(m == n);
    assert(be32(m)[0] == b[0]);
    assert(be32(m)[1] == b[1]);
    assert(be32(m)[2] == b[2]);
    assert(be32(m)[3] == b[3]);
}

/// Appends a copy of `src` to `dst`.
pub(crate) fn append_bytes(dst: &mut Vec<u8>, src: &[u8])
    ensures
        final(dst)@ == old(dst)@ + src@,
{
    let mut i: usize = 0;
    while i < src.len()
        invariant
            i <= src.len(),
            dst@ == old(dst)@ + src@.subrange(0, i as int),
        decreases src.len() - i,
    {
        dst.push(src[i]);
        i += 1;
    }
    assert(src@.subrange(0, src@.len() as int) == src@);
}

/// Wraps `payload` into one frame: a zero byte, the payload's length in four
/// big-endian bytes, the payload.
pub fn encode_frame(payload: &[u8]) -> (framed: Bytes)
    ensures
        bytes_of(framed) == frame(payload@),
        bytes_of(framed).len() == 5 + payload@.len(),
        bytes_of(framed)[0] == 0,
        payload@.len() < length_modulus() ==> be32_value(bytes_of(framed).subrange(1, 5))
            == payload@.len(),
        bytes_of(framed).skip(5) == payload@,
{
    let len: u64 = payload.len() as u64;
    let prefix: u32 = (len % 0x1_0000_0000u64) as u32;
    let mut buf: Vec<u8> = Vec::new();
    buf.push(0u8);
    buf.push((prefix / 0x100_0000) as u8);
    buf.push((prefix / 0x1_0000 % 0x100) as u8);
    buf.push((prefix / 0x100 % 0x100) as u8);
    buf.push((prefix % 0x100) as u8);
    assert(buf@ == seq![0u8] + be32(prefix));
    append_bytes(&mut buf, payload);
    proof {
        lemma_be32_value(prefix);
        assert(frame(payload@).subrange(1, 5) == be32(prefix));
    }
    bytes_from_vec(buf)
}

/// Reads the four length bytes that start at `at`.
fn read_be32(wire: &[u8], at: usize) -> (n: u32)
    requires
        at + 4 <= wire@.len(),
    ensures
        n == be32_value(wire@.subrange(at as int, at + 4)),
{
    let b0: u32 = wire[at] as u32;
    let b1: u32 = wire[at + 1] as u32;
    let b2: u32 = wire[at + 2] as u32;
    let b3: u32 = wire[at + 3] as u32;
    b0 * 0x100_0000 + b1 * 0x1_0000 + b2 * 0x100 + b3
}

/// Takes the envelopes off a run of frames and joins their payloads. `None`
/// where `wire` is not a run of whole frames whose flag byte is zero.
pub fn decode_frames(wire: &[u8]) -> (payload: Option<Vec<u8>>)
    ensures
        payload is Some <==> strip_frames(wire@) is Some,
        payload matches Some(p) ==> strip_frames(wire@) == Some(p@),
{
    let mut out: Vec<u8> = Vec::new();
    let mut pos: usize = 0;
    assert(wire@.skip(0) == wire@);
    assert(Seq::<u8>::empty() + wire@ == wire@);
    proof {
        lemma_prepend_empty(strip_frames(wire@));
    }
    while pos < wire.len()
        invariant
            pos <= wire.len(),
            strip_frames(wire@) == prepend(out@, strip_frames(wire@.skip(pos as int))),
        decreases wire.len() - pos,
    {
        let ghost rest = wire@.skip(pos as int);
        if wire.len() - pos < HEADER_LEN || wire[pos] != 0 {
            return None;
        }
        let n: usize = read_be32(wire, pos + 1) as usize;
        assert(rest.subrange(1, 5) == wire@.subrange(pos + 1, pos + 1 + 4));
        if n > wire.len() - pos - HEADER_LEN {
            return None;
        }
        let chunk = slice_subrange(wire, pos + HEADER_LEN, pos + HEADER_LEN + n);
        let ghost before = out@;
        append_bytes(&mut out, chunk);
        proof {
            assert(rest.subrange(5, 5 + n) == chunk@);
            assert(rest.skip(5 + n) == wire@.skip(pos + 5 + n));
            let tail = strip_frames(wire@.skip(pos + 5 + n));
            assert(strip_frames(rest) == prepend(chunk@, tail));
            lemma_prepend_twice(before, chunk@, tail);
        }
        pos = pos + HEADER_LEN + n;
    }
    assert(wire@.skip(pos as int) == Seq::<u8>::empty());
    assert(out@ + Seq::<u8>::empty() == out@);
    Some(out)
}

/// Nothing in front changes nothing.
proof fn lemma_prepend_empty(rest: Option<Seq<u8>>)
    ensures
        prepend(Seq::empty(), rest) == rest,
{
    if let Some(tail) = rest {
        assert(Seq::<u8>::empty() + tail == tail);
    }
}

/// Putting two runs in front one by one puts them in front joined.
proof fn lemma_prepend_twice(a: Seq<u8>, b: Seq<u8>, rest: Option<Seq<u8>>)
    ensures
        prepend(a, prepend(b, rest)) == prepend(a + b, rest),
{
    if let Some(tail) = rest {
        assert(a + (b + tail) == (a + b) + tail);
    }
}

/// The frames of a run of chunks are the frame of the first chunk followed
/// by the frames of the others.
pub proof fn lemma_frames_unfold(chunks: Seq<Seq<u8>>)
    requires
        chunks.len() > 0,
    ensures
        frames(chunks) == frame(chunks.first()) + frames(chunks.drop_first()),
{
    let wrap = |chunk: Seq<u8>| frame(chunk);
    assert(chunks.map_values(wrap).drop_first() == chunks.drop_first().map_values(wrap));
}

/// A frame in front of more wire is read as its payload in front of what the
/// rest of the wire holds.
pub proof fn lemma_strip_one_frame(payload: Seq<u8>, rest: Seq<u8>)
    requires
        payload.len() < length_modulus(),
    ensures
        strip_frames(frame(payload) + rest) == prepend(payload, strip_frames(rest)),
{
    let wire = frame(payload) + rest;
    let n = payload.len() as u32;
    lemma_be32_value(n);
    assert(wire.subrange(1, 5) == be32(n));
    assert(wire.subrange(5, 5 + n) == payload);
    assert(wire.skip(5 + n) == rest);
}

/// Decoding inverts encoding: the frames of any chunks that fit their length
/// bytes are read back as the chunks joined, whatever the chunk boundaries
/// were.
pub proof fn lemma_strip_frames_of_frames(chunks: Seq<Seq<u8>>)
    requires
        framable(chunks),
    ensures
        strip_frames(frames(chunks)) == Some(chunks.flatten()),
    decreases chunks.len(),
{
    if chunks.len() == 0 {
        assert(frames(chunks) == Seq::<u8>::empty());
    } else {
        lemma_frames_unfold(chunks);
        assert(framable(chunks.drop_first())) by {
            assert forall|i: int| 0 <= i < chunks.drop_first().len() implies (
            #[trigger] chunks.drop_first()[i]).len() < length_modulus() by {
                assert(chunks.drop_first()[i] == chunks[i + 1]);
            }
        }
        lemma_strip_frames_of_frames(chunks.drop_first());
        lemma_strip_one_frame(chunks.first(), frames(chunks.drop_first()));
    }
}

/// Whatever decodes is a run of frames: the chunks returned fit their length
/// bytes, their frames are `wire`, and joined they are what decoding gives.
pub proof fn lemma_stripped_chunks(wire: Seq<u8>) -> (chunks: Seq<Seq<u8>>)
    requires
        strip_frames(wire) is Some,
    ensures
        framable(chunks),
        frames(chunks) == wire,
        strip_frames(wire) == Some(chunks.flatten()),
    decreases wire.len(),
{
    if wire.len() == 0 {
        let chunks = Seq::<Seq<u8>>::empty();
        assert(frames(chunks) == wire);
        chunks
    } else {
        let n = be32_value(wire.subrange(1, 5));
        let head = wire.subrange(5, 5 + n);
        let rest = wire.skip(5 + n);
        let tail = lemma_stripped_chunks(rest);
        let chunks = seq![head] + tail;
        assert(chunks.first() == head);
        assert(chunks.drop_first() == tail);
        assert(framable(chunks)) by {
            lemma_be32_of_value(wire.subrange(1, 5));
            assert forall|i: int| 0 <= i < chunks.len() implies (#[trigger] chunks[i]).len()
                < length_modulus() by {
                if i > 0 {
                    assert(chunks[i] == tail[i - 1]);
                }
            }
        }
        assert(frame(head) + rest == wire) by {
            lemma_be32_of_value(wire.subrange(1, 5));
            assert(head.len() == n);
            assert(frame(head) == seq![0u8] + wire.subrange(1, 5) + head);
        }
        assert(chunks.flatten() == head + tail.flatten());
        lemma_frames_unfold(chunks);
        chunks
    }
}

} // verus!
