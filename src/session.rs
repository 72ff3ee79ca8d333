//! The decisions of one sync run, as a state machine driven by the caller.
//!
//! The caller measures both sides, grows the destination when the session
//! asks for it, and then, for each block that `next_block` names, reads that
//! range from both sides and hands the two buffers to `record_block`. The
//! action that comes back says whether the destination block must be
//! rewritten with the source block.
use vstd::prelude::*;

use crate::blocks::{
    block_len, block_start, blocks_total, lemma_blocks_cover, Stats,
};

verus! {

/// Which of the two streams a read came from.
#[derive(Clone, Copy, Debug, PartialEq, Eq, Structural)]
pub enum Side {
    Source,
    Destination,
}

/// Why a session refuses a block.
#[derive(Clone, Copy, Debug, PartialEq, Eq, Structural)]
pub enum SyncError {
    /// A read did not return exactly the block's length: the stream shrank
    /// or could not be read to the end of the block.
    TruncatedRead { side: Side, expected: u64, actual: u64 },
}

/// A byte range of both streams: `len` bytes from `offset` on.
#[derive(Clone, Copy, Debug, PartialEq, Eq, Structural)]
pub struct BlockRange {
    pub offset: u64,
    pub len: u64,
}

/// What the caller must do after a block was compared.
#[derive(Clone, Copy, Debug, PartialEq, Eq, Structural)]
pub enum BlockAction {
    /// Both sides were equal: nothing to write.
    Keep,
    /// The sides differed: write the source block at `offset` of the
    /// destination.
    Rewrite { offset: u64 },
}

/// The state of one sync run.
#[derive(Clone, Copy, Debug, PartialEq, Eq)]
pub struct SyncSession {
    /// Length of the source, measured once at the start.
    pub source_size: u64,
    /// Length of the destination, measured once at the start.
    pub destination_size: u64,
    /// The counters; the next block to process is the number processed.
    pub stats: Stats,
}

/// The larger of two lengths: what the destination measures after a run.
pub open spec fn final_length(source_size: nat, destination_size: nat) -> nat {
    if source_size > destination_size {
        source_size
    } else {
        destination_size
    }
}

/// Byte-wise equality of two buffers.
pub fn blocks_equal(a: &[u8], b: &[u8]) -> (r: bool)
    ensures
        r == (a@ == b@),
{
    if a.len() != b.len() {
        return false;
    }
    let mut i: usize = 0;
    while i < a.len()
        invariant
            a@.len() == b@.len(),
            i <= a@.len(),
            forall|j: int| 0 <= j < i ==> a@[j] == b@[j],
        decreases a@.len() - i,
    {
        if a[i] != b[i] {
            return false;
        }
        i = i + 1;
    }
    proof {
        assert(a@ =~= b@);
    }
    true
}

impl SyncSession {
    /// The session's fields agree: counters for a source of `source_size`
    /// bytes.
    pub open spec fn wf(&self) -> bool {
        &&& self.stats.wf()
        &&& self.stats.total == blocks_total(self.source_size as nat, self.stats.blocksize as nat)
    }

    /// Index of the next block to process.
    pub open spec fn index(&self) -> nat {
        self.stats.processed()
    }

    /// Every block of the source has been processed.
    pub open spec fn finished(&self) -> bool {
        self.stats.processed() == self.stats.total
    }

    /// Start of the next block.
    pub open spec fn next_start(&self) -> nat {
        block_start(self.index(), self.stats.blocksize as nat)
    }

    /// Length of the next block.
    pub open spec fn next_len(&self) -> nat {
        block_len(self.source_size as nat, self.stats.blocksize as nat, self.index())
    }

    /// Bytes of the source that the processed blocks cover.
    pub open spec fn consumed(&self) -> nat {
        if self.finished() {
            self.source_size as nat
        } else {
            self.next_start()
        }
    }

    /// The same session with one more block counted as equal.
    pub open spec fn after_ok(self) -> SyncSession {
        SyncSession { stats: Stats { count_ok: (self.stats.count_ok + 1) as u64, ..self.stats }, ..self }
    }

    /// The same session with one more block counted as rewritten.
    pub open spec fn after_bad(self) -> SyncSession {
        SyncSession {
            stats: Stats { count_bad: (self.stats.count_bad + 1) as u64, ..self.stats },
            ..self
        }
    }

    /// Starts a run over a source and a destination of the given lengths.
    pub fn new(source_size: u64, destination_size: u64, block_size: u32) -> (r: SyncSession)
        requires
            block_size > 0,
        ensures
            r.wf(),
            r.source_size == source_size,
            r.destination_size == destination_size,
            r.stats.blocksize == block_size,
            r.stats.count_ok == 0,
            r.stats.count_bad == 0,
    {
        SyncSession { source_size, destination_size, stats: Stats::new(source_size, block_size) }
    }

    /// The length to grow the destination to before any block is read:
    /// the source's length where the destination is shorter. A destination
    /// is never shrunk.
    pub fn resize_to(&self) -> (r: Option<u64>)
        ensures
            self.source_size > self.destination_size ==> r == Some(self.source_size),
            self.source_size <= self.destination_size ==> r.is_none(),
    {
        if self.source_size > self.destination_size {
            Some(self.source_size)
        } else {
            None
        }
    }

    /// The length of the destination once the run is complete.
    pub fn final_destination_size(&self) -> (r: u64)
        ensures
            r == final_length(self.source_size as nat, self.destination_size as nat),
    {
        if self.source_size > self.destination_size {
            self.source_size
        } else {
            self.destination_size
        }
    }

    /// Whether every block has been processed.
    pub fn is_finished(&self) -> (r: bool)
        requires
            self.wf(),
        ensures
            r == self.finished(),
    {
        self.stats.count_ok + self.stats.count_bad == self.stats.total
    }

    /// The range of the next block to read on both sides, or `None` once
    /// the whole source has been processed. Only the last block may be
    /// shorter than the block size, and none is empty.
    pub fn next_block(&self) -> (r: Option<BlockRange>)
        requires
            self.wf(),
        ensures
            self.finished() <==> r.is_none(),
            r matches Some(range) ==> {
                &&& range.offset == self.next_start()
                &&& range.len == self.next_len()
                &&& range.len > 0
                &&& range.len <= self.stats.blocksize
                &&& range.offset + range.len <= self.source_size
            },
    {
        let done = self.stats.count_ok + self.stats.count_bad;
        if done == self.stats.total {
            return None;
        }
        let bs = self.stats.blocksize;
        proof {
            lemma_blocks_cover(self.source_size as nat, bs as nat, done as nat);
        }
        let offset = done * bs;
        let rest = self.source_size - offset;
        let len = if rest >= bs {
            bs
        } else {
            rest
        };
        Some(BlockRange { offset, len })
    }

    /// Takes the two buffers read for the next block and decides what to do
    /// with it. A buffer that is not exactly the block's length is refused,
    /// and the session is left as it was.
    pub fn record_block(&mut self, source_block: &[u8], destination_block: &[u8]) -> (r: Result<
        BlockAction,
        SyncError,
    >)
        requires
            old(self).wf(),
            !old(self).finished(),
        ensures
            final(self).wf(),
            source_block@.len() != old(self).next_len() ==> {
                &&& r == Err::<BlockAction, SyncError>(
                    SyncError::TruncatedRead {
                        side: Side::Source,
                        expected: old(self).next_len() as u64,
                        actual: source_block@.len() as u64,
                    },
                )
                &&& *final(self) == *old(self)
            },
            source_block@.len() == old(self).next_len() && destination_block@.len()
                != old(self).next_len() ==> {
                &&& r == Err::<BlockAction, SyncError>(
                    SyncError::TruncatedRead {
                        side: Side::Destination,
                        expected: old(self).next_len() as u64,
                        actual: destination_block@.len() as u64,
                    },
                )
                &&& *final(self) == *old(self)
            },
            source_block@.len() == old(self).next_len() && destination_block@.len()
                == old(self).next_len() && source_block@ == destination_block@ ==> {
                &&& r == Ok::<BlockAction, SyncError>(BlockAction::Keep)
                &&& *final(self) == old(self).after_ok()
            },
            source_block@.len() == old(self).next_len() && destination_block@.len()
                == old(self).next_len() && source_block@ != destination_block@ ==> {
                &&& r == Ok::<BlockAction, SyncError>(
                    BlockAction::Rewrite { offset: old(self).next_start() as u64 },
                )
                &&& *final(self) == old(self).after_bad()
            },
    {
        let range = match self.next_block() {
            Some(range) => range,
            None => {
                proof {
                    assert(false);
                }
                return Ok(BlockAction::Keep);
            },
        };
        if source_block.len() as u64 != range.len {
            return Err(
                SyncError::TruncatedRead {
                    side: Side::Source,
                    expected: range.len,
                    actual: source_block.len() as u64,
                },
            );
        }
        if destination_block.len() as u64 != range.len {
            return Err(
                SyncError::TruncatedRead {
                    side: Side::Destination,
                    expected: range.len,
                    actual: destination_block.len() as u64,
                },
            );
        }
        if blocks_equal(source_block, destination_block) {
            self.stats.count_ok = self.stats.count_ok + 1;
            Ok(BlockAction::Keep)
        } else {
            self.stats.count_bad = self.stats.count_bad + 1;
            Ok(BlockAction::Rewrite { offset: range.offset })
        }
    }
}

/// When a session has finished, the blocks counted as equal and as
/// rewritten together make up every block of the source.
pub proof fn lemma_finished_counts_every_block(session: SyncSession)
    requires
        session.wf(),
        session.finished(),
    ensures
        session.stats.count_ok + session.stats.count_bad == blocks_total(
            session.source_size as nat,
            session.stats.blocksize as nat,
        ),
{
}

} // verus!
