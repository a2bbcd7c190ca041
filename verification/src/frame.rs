//! The wire format of one datagram.
//!
//! Every datagram starts with a ten-byte header: the channel id in two
//! little-endian bytes, then the sequence number assigned to the send in
//! eight little-endian bytes. The application payload follows unchanged.

use vstd::bytes::{spec_u16_to_le_bytes, spec_u64_to_le_bytes};
use vstd::prelude::*;

verus! {

/// Reserved header bytes at the front of every frame: two for the channel
/// id and eight for the sequence number.
pub const HEADER_LEN: usize = 10;

/// Largest payload one frame may carry, leaving the header and some slack
/// below the largest UDP datagram.
pub const MAX_PAYLOAD_LEN: u16 = 65399;

/// The bytes of one datagram: channel id (little-endian), sequence number
/// (little-endian), then the payload.
pub open spec fn frame_bytes(cid: u16, seqno: u64, payload: Seq<u8>) -> Seq<u8> {
    spec_u16_to_le_bytes(cid) + spec_u64_to_le_bytes(seqno) + payload
}

/// The header length is fixed, so a frame is exactly ten bytes longer than
/// its payload, and its three fields sit at fixed offsets.
pub proof fn lemma_frame_layout(cid: u16, seqno: u64, payload: Seq<u8>)
    ensures
        frame_bytes(cid, seqno, payload).len() == HEADER_LEN + payload.len(),
        frame_bytes(cid, seqno, payload).subrange(0, 2) == spec_u16_to_le_bytes(cid),
        frame_bytes(cid, seqno, payload).subrange(2, 10) == spec_u64_to_le_bytes(seqno),
        frame_bytes(cid, seqno, payload).skip(10) == payload,
{
    vstd::bytes::lemma_auto_spec_u16_to_from_le_bytes();
    vstd::bytes::lemma_auto_spec_u64_to_from_le_bytes();
    assert(frame_bytes(cid, seqno, payload).subrange(0, 2) =~= spec_u16_to_le_bytes(cid));
    assert(frame_bytes(cid, seqno, payload).subrange(2, 10) =~= spec_u64_to_le_bytes(seqno));
    assert(frame_bytes(cid, seqno, payload).skip(10) =~= payload);
}

} // verus!
