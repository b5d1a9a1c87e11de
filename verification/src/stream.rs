//! The bulk test stream: how a transfer of `total` bytes of the test pattern
//! is cut into chunks, and how the receiving side checks what arrives.

use vstd::prelude::*;

use crate::error::SessionError;
use crate::protocol::{fill_test_pattern, lemma_pattern_concat, pattern_seq};
use crate::protocol::bulk::CHUNK_SIZE;

verus! {

/// Length of the chunk that starts at `offset` of a `total`-byte stream.
pub open spec fn chunk_len(total: int, offset: int) -> int {
    if total - offset < CHUNK_SIZE { total - offset } else { CHUNK_SIZE as int }
}

/// The chunk that starts at `offset` of a `total`-byte stream.
pub open spec fn chunk_at(total: int, offset: int) -> Seq<u8> {
    pattern_seq(offset, chunk_len(total, offset) as nat)
}

/// Everything a stream sends from `offset` on, chunk after chunk.
pub open spec fn chunks_from(total: int, offset: int) -> Seq<u8>
    decreases total - offset,
{
    if offset >= total || offset < 0 {
        Seq::empty()
    } else {
        chunk_at(total, offset) + chunks_from(total, offset + chunk_len(total, offset))
    }
}

/// A stream's chunks, joined, are the test pattern from `offset` to `total`.
pub proof fn lemma_chunks_cover_pattern(total: int, offset: int)
    requires
        0 <= offset <= total,
    ensures
        chunks_from(total, offset) == pattern_seq(offset, (total - offset) as nat),
    decreases total - offset,
{
    if offset < total {
        let len = chunk_len(total, offset);
        lemma_chunks_cover_pattern(total, offset + len);
        lemma_pattern_concat(offset, len as nat, (total - offset - len) as nat);
    } else {
        assert(pattern_seq(offset, 0) =~= Seq::<u8>::empty());
    }
}

/// Cuts a `total`-byte test stream into chunks of at most one ATT payload.
pub struct ChunkPlan {
    total: usize,
    offset: usize,
}

impl ChunkPlan {
    /// Stream length.
    pub closed spec fn spec_total(&self) -> int {
        self.total as int
    }

    /// Bytes already handed out.
    pub closed spec fn spec_offset(&self) -> int {
        self.offset as int
    }

    /// A plan for a stream of `total` bytes, starting at its beginning.
    pub fn new(total: usize) -> (r: ChunkPlan)
        ensures
            r.spec_total() == total,
            r.spec_offset() == 0,
    {
        ChunkPlan { total, offset: 0 }
    }

    /// Bytes already handed out.
    pub fn offset(&self) -> (r: usize)
        ensures
            r == self.spec_offset(),
    {
        self.offset
    }

    /// The next chunk of the stream, or `None` when the whole stream was
    /// handed out.
    pub fn next_chunk(&mut self) -> (r: Option<Vec<u8>>)
        requires
            0 <= old(self).spec_offset() <= old(self).spec_total(),
        ensures
            final(self).spec_total() == old(self).spec_total(),
            0 <= final(self).spec_offset() <= final(self).spec_total(),
            match r {
                Some(chunk) => old(self).spec_offset() < old(self).spec_total()
                    && chunk@ == chunk_at(old(self).spec_total(), old(self).spec_offset())
                    && final(self).spec_offset() == old(self).spec_offset() + chunk_len(old(self).spec_total(), old(self).spec_offset()),
                None => old(self).spec_offset() >= old(self).spec_total()
                    && final(self).spec_offset() == old(self).spec_offset(),
            },
    {
        if self.offset >= self.total {
            return None;
        }
        let remaining = self.total - self.offset;
        let len = if remaining < CHUNK_SIZE { remaining } else { CHUNK_SIZE };
        let mut chunk: Vec<u8> = vec![0u8; len];
        fill_test_pattern(self.offset, chunk.as_mut_slice());
        self.offset = self.offset + len;
        Some(chunk)
    }
}

/// The receiving side's step on one chunk, when `received` of `total`
/// bytes arrived so far: the new count, or why the chunk is refused.
pub open spec fn receive_step(total: int, received: int, chunk: Seq<u8>) -> Result<int, SessionError> {
    let expected = chunk_len(total, received);
    if chunk.len() != expected {
        Err(SessionError::UnexpectedChunkSize { actual: chunk.len() as usize, expected: expected as usize })
    } else if chunk != chunk_at(total, received) {
        Err(SessionError::DataMismatch { offset: received as usize })
    } else {
        Ok(received + expected)
    }
}

/// Checks a received bulk stream chunk by chunk against the test pattern.
pub struct BulkReceiver {
    total: usize,
    received: usize,
}

impl BulkReceiver {
    /// Stream length.
    pub closed spec fn spec_total(&self) -> int {
        self.total as int
    }

    /// Bytes accepted so far.
    pub closed spec fn spec_received(&self) -> int {
        self.received as int
    }

    /// A receiver expecting a stream of `total` bytes.
    pub fn new(total: usize) -> (r: BulkReceiver)
        ensures
            r.spec_total() == total,
            r.spec_received() == 0,
    {
        BulkReceiver { total, received: 0 }
    }

    /// Bytes accepted so far.
    pub fn received(&self) -> (r: usize)
        ensures
            r == self.spec_received(),
    {
        self.received
    }

    /// Whether the whole stream arrived.
    pub fn is_complete(&self) -> (r: bool)
        ensures
            r == (self.spec_received() >= self.spec_total()),
    {
        self.received >= self.total
    }

    /// Check one received chunk: it must have the expected size and hold the
    /// test pattern at the current offset.
    #[verifier::loop_isolation(false)]
    pub fn accept_chunk(&mut self, chunk: &[u8]) -> (r: Result<(), SessionError>)
        requires
            0 <= old(self).spec_received() < old(self).spec_total(),
        ensures
            final(self).spec_total() == old(self).spec_total(),
            match receive_step(old(self).spec_total(), old(self).spec_received(), chunk@) {
                Ok(n) => r is Ok && final(self).spec_received() == n,
                Err(e) => r == Err::<(), SessionError>(e) && final(self).spec_received() == old(self).spec_received(),
            },
            0 <= final(self).spec_received() <= final(self).spec_total(),
    {
        let remaining = self.total - self.received;
        let expected_len = if remaining < CHUNK_SIZE { remaining } else { CHUNK_SIZE };
        if chunk.len() != expected_len {
            return Err(SessionError::UnexpectedChunkSize { actual: chunk.len(), expected: expected_len });
        }
        let mut expected: Vec<u8> = vec![0u8; expected_len];
        fill_test_pattern(self.received, expected.as_mut_slice());
        let mut i: usize = 0;
        while i < expected_len
            invariant
                i <= expected_len,
                expected_len == chunk@.len(),
                expected@.len() == expected_len,
                forall|k: int| 0 <= k < i ==> chunk@[k] == expected@[k],
            decreases expected_len - i,
        {
            if chunk[i] != expected[i] {
                return Err(SessionError::DataMismatch { offset: self.received });
            }
            i += 1;
        }
        assert(chunk@ =~= expected@);
        self.received = self.received + expected_len;
        Ok(())
    }
}

/// The receiving side accepts each chunk the sending side cuts: at every
/// offset of a stream, the planned chunk is accepted and advances the count
/// exactly as the plan advances.
pub proof fn lemma_receiver_accepts_plan(total: int, offset: int)
    requires
        0 <= offset < total,
    ensures
        receive_step(total, offset, chunk_at(total, offset)) == Ok::<int, SessionError>(offset + chunk_len(total, offset)),
{
}

/// The receiving side accepts nothing but the planned chunk.
pub proof fn lemma_receiver_rejects_other(total: int, offset: int, chunk: Seq<u8>)
    requires
        0 <= offset < total,
        chunk != chunk_at(total, offset),
    ensures
        receive_step(total, offset, chunk) is Err,
{
}

} // verus!
