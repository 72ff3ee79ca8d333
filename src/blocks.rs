//! How a source of a given size is cut into blocks, and the run's counters.
use vstd::prelude::*;

verus! {

/// The number of blocks that cover `size` bytes in blocks of `block_size`
/// bytes: the ceiling of `size / block_size`.
pub open spec fn blocks_total(size: nat, block_size: nat) -> nat
    recommends
        block_size > 0,
{
    if size % block_size == 0 {
        size / block_size
    } else {
        size / block_size + 1
    }
}

/// The offset at which block `index` starts.
pub open spec fn block_start(index: nat, block_size: nat) -> nat {
    index * block_size
}

/// The length of block `index` of a source of `size` bytes: a full block, or
/// what is left of the source for the last one.
pub open spec fn block_len(size: nat, block_size: nat, index: nat) -> nat {
    let start = block_start(index, block_size);
    if size >= start + block_size {
        block_size
    } else if size >= start {
        (size - start) as nat
    } else {
        0
    }
}

/// Every block below the total starts inside the source and is not empty,
/// and the blocks together reach the end of the source.
pub proof fn lemma_blocks_cover(size: nat, block_size: nat, index: nat)
    requires
        block_size > 0,
    ensures
        blocks_total(size, block_size) * block_size >= size,
        index < blocks_total(size, block_size) ==> block_start(index, block_size) < size,
        index < blocks_total(size, block_size) ==> block_len(size, block_size, index) > 0,
        index < blocks_total(size, block_size) ==> block_start(index, block_size) + block_len(
            size,
            block_size,
            index,
        ) <= size,
        index >= blocks_total(size, block_size) ==> block_start(index, block_size) >= size,
{
    let t = blocks_total(size, block_size);
    let q = size / block_size;
    let r = size % block_size;
    assert(size == q * block_size + r) by (nonlinear_arith)
        requires
            block_size > 0,
            q == size / block_size,
            r == size % block_size,
    ;
    assert(t * block_size >= size) by (nonlinear_arith)
        requires
            size == q * block_size + r,
            r < block_size,
            t == (if r == 0 { q } else { q + 1 }),
    ;
    if index < t {
        assert(index * block_size < size) by (nonlinear_arith)
            requires
                size == q * block_size + r,
                r < block_size,
                t == (if r == 0 { q } else { q + 1 }),
                index < t,
                block_size > 0,
        ;
    } else {
        assert(index * block_size >= size) by (nonlinear_arith)
            requires
                t * block_size >= size,
                index >= t,
                block_size > 0,
        ;
    }
}

/// A source whose size is a whole number of blocks ends in a full block,
/// never in an empty one.
pub proof fn lemma_last_block_full(size: nat, block_size: nat)
    requires
        block_size > 0,
        size > 0,
        size % block_size == 0,
    ensures
        blocks_total(size, block_size) >= 1,
        block_len(size, block_size, (blocks_total(size, block_size) - 1) as nat) == block_size,
{
    let q = size / block_size;
    assert(size == q * block_size) by (nonlinear_arith)
        requires
            block_size > 0,
            q == size / block_size,
            size % block_size == 0,
    ;
    assert(q >= 1) by (nonlinear_arith)
        requires
            size == q * block_size,
            size > 0,
    ;
    assert(((q - 1) as nat) * block_size + block_size == size) by (nonlinear_arith)
        requires
            size == q * block_size,
            q >= 1,
    ;
}

/// The counters of a sync run.
#[derive(Clone, Copy, Debug, PartialEq, Eq)]
pub struct Stats {
    /// Blocks found equal on both sides.
    pub count_ok: u64,
    /// Blocks that differed and were rewritten.
    pub count_bad: u64,
    /// Bytes per block.
    pub blocksize: u64,
    /// Blocks that the whole source takes.
    pub total: u64,
}

impl Stats {
    /// The counters are consistent: a block size that a `u32` holds, and no
    /// more blocks processed than there are.
    pub open spec fn wf(&self) -> bool {
        &&& 0 < self.blocksize <= u32::MAX
        &&& self.count_ok + self.count_bad <= self.total
    }

    /// Blocks processed so far, as a mathematical integer.
    pub open spec fn processed(&self) -> nat {
        (self.count_ok + self.count_bad) as nat
    }

    /// Fresh counters for a source of `size` bytes cut in blocks of
    /// `blocksize` bytes.
    pub fn new(size: u64, blocksize: u32) -> (r: Stats)
        requires
            blocksize > 0,
        ensures
            r.wf(),
            r.count_ok == 0,
            r.count_bad == 0,
            r.blocksize == blocksize,
            r.total == blocks_total(size as nat, blocksize as nat),
    {
        let blocksize64 = blocksize as u64;
        proof {
            assert(size % blocksize64 != 0 ==> size / blocksize64 < u64::MAX) by (nonlinear_arith)
                requires
                    blocksize64 > 0,
                    size <= u64::MAX,
            ;
        }
        let total = if size % blocksize64 == 0 {
            size / blocksize64
        } else {
            size / blocksize64 + 1
        };
        Stats { count_ok: 0, count_bad: 0, blocksize: blocksize64, total }
    }
}

} // verus!
