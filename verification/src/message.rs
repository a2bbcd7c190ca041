//! An outbound message buffer and its one-way packing into a frame.

use crate::frame::{frame_bytes, HEADER_LEN, MAX_PAYLOAD_LEN};
use vstd::prelude::*;

verus! {

/// A growable byte buffer whose first ten bytes are reserved for the frame
/// header, so packing writes the header in place and never shifts the
/// payload.
pub struct Message {
    data: Vec<u8>,
}

impl Message {
    /// The application payload appended so far, after the reserved header.
    pub closed spec fn payload(self) -> Seq<u8> {
        self.data@.skip(HEADER_LEN as int)
    }

    /// The reserved header bytes are always present, and the payload stays
    /// within the frame limit.
    pub closed spec fn wf(self) -> bool {
        HEADER_LEN <= self.data@.len() <= HEADER_LEN + MAX_PAYLOAD_LEN
    }

    /// Makes an empty message sized for a payload of `len` bytes: the
    /// buffer starts as the ten reserved header bytes, and payload bytes
    /// are appended afterwards.
    pub fn new(len: u16) -> (m: Message)
        requires
            len <= MAX_PAYLOAD_LEN,
        ensures
            m.wf(),
            m.payload() == Seq::<u8>::empty(),
    {
        let mut data: Vec<u8> = Vec::with_capacity(len as usize + 2 + 8);
        let mut i: usize = 0;
        while i < HEADER_LEN
            invariant
                i <= HEADER_LEN,
                data@.len() == i,
            decreases HEADER_LEN - i,
        {
            data.push(0u8);
            i = i + 1;
        }
        let m = Message { data };
        proof {
            assert(m.payload() =~= Seq::<u8>::empty());
        }
        m
    }

    /// Appends `buf` to the payload and reports how many bytes were taken:
    /// always all of them.
    pub fn write(&mut self, buf: &[u8]) -> (n: usize)
        requires
            old(self).wf(),
            old(self).payload().len() + buf@.len() <= MAX_PAYLOAD_LEN,
        ensures
            final(self).wf(),
            final(self).payload() == old(self).payload() + buf@,
            n == buf@.len(),
    {
        let mut i: usize = 0;
        while i < buf.len()
            invariant
                old(self).wf(),
                old(self).payload().len() + buf@.len() <= MAX_PAYLOAD_LEN,
                i <= buf@.len(),
                self.data@ == old(self).data@ + buf@.subrange(0, i as int),
            decreases buf@.len() - i,
        {
            let b = buf[i];
            self.data.push(b);
            proof {
                assert(self.data@ =~= old(self).data@ + buf@.subrange(0, i + 1));
            }
            i = i + 1;
        }
        proof {
            assert(self.data@ =~= old(self).data@ + buf@);
            assert(self.payload() =~= old(self).payload() + buf@);
        }
        buf.len()
    }

    /// Accepts a flush request; appended bytes sit in plain memory, so
    /// there is nothing to push out.
    pub fn flush(&mut self)
        ensures
            *final(self) == *old(self),
    {
    }

    /// Finalizes the frame: writes the channel id and the sequence number
    /// into the reserved header and hands back the finished datagram
    /// bytes, consuming the message so it can be packed exactly once and
    /// never grown again.
    pub fn pack(self, cid: u16, cseq: u64) -> (r: Vec<u8>)
        requires
            self.wf(),
        ensures
            r@ == frame_bytes(cid, cseq, self.payload()),
            r@.len() == HEADER_LEN + self.payload().len(),
            r@.len() <= HEADER_LEN + MAX_PAYLOAD_LEN,
    {
        proof {
            vstd::bytes::lemma_auto_spec_u16_to_from_le_bytes();
            vstd::bytes::lemma_auto_spec_u64_to_from_le_bytes();
        }
        let mut data = self.data;
        let cid_b = vstd::bytes::u16_to_le_bytes(cid);
        data[0] = cid_b[0];
        data[1] = cid_b[1];
        let cseq_b = vstd::bytes::u64_to_le_bytes(cseq);
        data[2] = cseq_b[0];
        data[3] = cseq_b[1];
        data[4] = cseq_b[2];
        data[5] = cseq_b[3];
        data[6] = cseq_b[4];
        data[7] = cseq_b[5];
        data[8] = cseq_b[6];
        data[9] = cseq_b[7];
        proof {
            assert(data@ =~= frame_bytes(cid, cseq, self.payload()));
        }
        data
    }
}

} // verus!
