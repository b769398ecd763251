//! Length-prefixed framing.
//!
//! Every request and response travels as one frame: a fixed-width
//! four-byte length, then exactly that many payload bytes.  The reader
//! consumes one complete frame from the head of a byte sequence and
//! never looks past the declared length; a sequence too short for the
//! frame it announces is incomplete, not malformed.

use vstd::prelude::*;

verus! {

use vstd::bytes::spec_u32_from_le_bytes;

use crate::codec::dec_bytes_at;
use crate::codec::enc_bytes;
use crate::codec::lemma_rt_bytes;
use crate::codec::read_bytes;
use crate::codec::write_bytes;

/// A frame: a four-byte length, then exactly that many payload bytes.
pub open spec fn enc_frame(payload: Seq<u8>) -> Seq<u8> {
    enc_bytes(payload)
}

/// The payload of the one complete frame at the head of `b`; bytes
/// after the frame are not read.
pub open spec fn frame_payload(b: Seq<u8>) -> Option<Seq<u8>> {
    match dec_bytes_at(b, 0) {
        Some((p, _)) => Some(p),
        None => None,
    }
}

/// Whether `b` is too short for the frame it announces: either the
/// length header itself is cut off, or the declared payload is.
pub open spec fn frame_incomplete(b: Seq<u8>) -> bool {
    b.len() < 4 || b.len() < 4 + spec_u32_from_le_bytes(b.subrange(0, 4))
}

/// A frame fails to parse exactly when it is incomplete.
pub proof fn lemma_frame_payload_none(b: Seq<u8>)
    ensures
        frame_payload(b) is None <==> frame_incomplete(b),
{
}

/// Framing a payload and reading the frame back yields the payload.
pub proof fn lemma_frame_round_trip(p: Seq<u8>)
    requires
        p.len() <= 0xFFFF_FFFF,
    ensures
        frame_payload(enc_frame(p)) == Some(p),
{
    assert(enc_frame(p) =~= Seq::<u8>::empty() + enc_bytes(p) + Seq::<u8>::empty());
    lemma_rt_bytes(p, Seq::<u8>::empty(), Seq::<u8>::empty());
}

/// A frame still parses when more bytes follow it on the stream.
pub proof fn lemma_frame_round_trip_prefix(p: Seq<u8>, rest: Seq<u8>)
    requires
        p.len() <= 0xFFFF_FFFF,
    ensures
        frame_payload(enc_frame(p) + rest) == Some(p),
{
    assert(enc_frame(p) + rest =~= Seq::<u8>::empty() + enc_bytes(p) + rest);
    lemma_rt_bytes(p, Seq::<u8>::empty(), rest);
}

pub fn frame_of(payload: &Vec<u8>) -> (r: Vec<u8>)
    requires
        payload@.len() <= 0xFFFF_FFFF,
    ensures
        r@ == enc_frame(payload@),
{
    let mut buf: Vec<u8> = Vec::new();
    write_bytes(&mut buf, payload.as_slice());
    proof {
        assert(buf@ =~= enc_frame(payload@));
    }
    buf
}

pub fn read_frame(b: &[u8]) -> (r: Option<Vec<u8>>)
    ensures
        r matches Some(p) ==> frame_payload(b@) == Some(p@),
        r is None ==> frame_payload(b@) is None,
{
    match read_bytes(b, 0) {
        Some((p, _)) => Some(p),
        None => None,
    }
}

} // verus!
