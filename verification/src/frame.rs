//! Length-prefixed message framing on top of the ring's raw bytes.
//!
//! One frame is a four-byte little-endian length header followed by exactly
//! that many payload bytes; there is no checksum and no type tag. A payload
//! must leave room for its header and for the ring's one reserved byte, so
//! its length is capped at `cap - 5`.

use vstd::bytes::*;
use vstd::prelude::*;

verus! {

/// Bytes of the length header in front of every payload.
pub const HEADER_BYTES: usize = 4;

/// The frame laid into the ring for a payload: its length header, then the
/// payload itself.
pub open spec fn frame_of(payload: Seq<u8>) -> Seq<u8> {
    spec_u32_to_le_bytes(payload.len() as u32) + payload
}

/// Does the byte stream begin with one complete frame?
pub open spec fn has_frame(stream: Seq<u8>) -> bool {
    &&& stream.len() >= HEADER_BYTES
    &&& stream.len() - HEADER_BYTES >= spec_u32_from_le_bytes(stream.take(HEADER_BYTES as int))
}

/// Payload length declared by the header at the front of the stream.
pub open spec fn frame_len(stream: Seq<u8>) -> int {
    spec_u32_from_le_bytes(stream.take(HEADER_BYTES as int)) as int
}

/// Payload of the first frame in the stream.
pub open spec fn frame_payload(stream: Seq<u8>) -> Seq<u8> {
    stream.subrange(HEADER_BYTES as int, HEADER_BYTES + frame_len(stream))
}

/// What is left of the stream once the first frame is consumed.
pub open spec fn frame_rest(stream: Seq<u8>) -> Seq<u8> {
    stream.skip(HEADER_BYTES + frame_len(stream))
}

/// The payloads of the whole frames standing in a stream, oldest first.
pub open spec fn parse_frames(stream: Seq<u8>) -> Seq<Seq<u8>>
    decreases stream.len(),
{
    if has_frame(stream) {
        seq![frame_payload(stream)] + parse_frames(frame_rest(stream))
    } else {
        Seq::<Seq<u8>>::empty()
    }
}

/// A stream made of whole frames and nothing else: what a region holds
/// between critical sections.
pub open spec fn well_framed(stream: Seq<u8>) -> bool
    decreases stream.len(),
{
    if stream.len() == 0 {
        true
    } else {
        has_frame(stream) && well_framed(frame_rest(stream))
    }
}

/// The four header bytes for a payload of `len` bytes, little-endian.
pub fn encode_header(len: u32) -> (r: Vec<u8>)
    ensures
        r@ == spec_u32_to_le_bytes(len),
        r@.len() == HEADER_BYTES,
{
    proof {
        lemma_auto_spec_u32_to_from_le_bytes();
    }
    u32_to_le_bytes(len)
}

/// The payload length read back out of four little-endian header bytes.
pub fn decode_header(header: &[u8]) -> (r: u32)
    requires
        header@.len() == HEADER_BYTES,
    ensures
        r == spec_u32_from_le_bytes(header@),
{
    u32_from_le_bytes(header)
}

/// Law: framing round-trips. Whatever follows it in the stream, a frame
/// built from a payload declares that payload's length, decodes back to the
/// payload byte for byte, and ends exactly where the rest begins.
pub proof fn lemma_frame_round_trip(payload: Seq<u8>, rest: Seq<u8>)
    requires
        payload.len() <= u32::MAX,
    ensures
        frame_of(payload).len() == HEADER_BYTES + payload.len(),
        has_frame(frame_of(payload) + rest),
        frame_len(frame_of(payload) + rest) == payload.len(),
        frame_payload(frame_of(payload) + rest) == payload,
        frame_rest(frame_of(payload) + rest) == rest,
{
    lemma_auto_spec_u32_to_from_le_bytes();
    let stream = frame_of(payload) + rest;
    assert(stream.take(HEADER_BYTES as int) =~= spec_u32_to_le_bytes(payload.len() as u32));
    assert(frame_payload(stream) =~= payload);
    assert(frame_rest(stream) =~= rest);
}

/// Law: messages framed one after the other come back out in the order they
/// went in. The first frame of the combined stream yields the first
/// payload, and what remains starts with the frame of the second.
pub proof fn lemma_frames_decode_in_order(first: Seq<u8>, second: Seq<u8>)
    requires
        first.len() <= u32::MAX,
        second.len() <= u32::MAX,
    ensures
        ({
            let stream = frame_of(first) + frame_of(second);
            &&& has_frame(stream)
            &&& frame_payload(stream) == first
            &&& frame_rest(stream) == frame_of(second)
            &&& has_frame(frame_rest(stream))
            &&& frame_payload(frame_rest(stream)) == second
            &&& frame_rest(frame_rest(stream)) == Seq::<u8>::empty()
        }),
{
    lemma_frame_round_trip(first, frame_of(second));
    lemma_frame_round_trip(second, Seq::<u8>::empty());
    assert(frame_of(second) + Seq::<u8>::empty() =~= frame_of(second));
}

/// A stream parses to at least one message exactly when a whole frame
/// stands at its front.
pub proof fn lemma_parse_frames_nonempty(stream: Seq<u8>)
    ensures
        parse_frames(stream).len() > 0 <==> has_frame(stream),
{
}

/// Law: framing a message onto the back of a well-framed stream keeps it
/// well framed and appends exactly that payload to what the stream parses
/// to. No message already in the stream moves, disappears or doubles.
pub proof fn lemma_well_framed_append(stream: Seq<u8>, payload: Seq<u8>)
    requires
        well_framed(stream),
        payload.len() <= u32::MAX,
    ensures
        well_framed(stream + frame_of(payload)),
        parse_frames(stream + frame_of(payload)) == parse_frames(stream).push(payload),
    decreases stream.len(),
{
    lemma_frame_round_trip(payload, Seq::<u8>::empty());
    let combined = stream + frame_of(payload);
    if stream.len() == 0 {
        assert(combined =~= frame_of(payload) + Seq::<u8>::empty());
        assert(parse_frames(frame_rest(combined)) =~= Seq::<Seq<u8>>::empty());
        assert(well_framed(frame_rest(combined)));
        assert(well_framed(combined));
        assert(parse_frames(combined) =~~= parse_frames(stream).push(payload));
    } else {
        assert(combined.take(HEADER_BYTES as int) =~= stream.take(HEADER_BYTES as int));
        assert(frame_payload(combined) =~= frame_payload(stream));
        assert(frame_rest(combined) =~= frame_rest(stream) + frame_of(payload));
        lemma_well_framed_append(frame_rest(stream), payload);
        assert(well_framed(combined));
        assert(parse_frames(combined) =~~= parse_frames(stream).push(payload));
    }
}

} // verus!
