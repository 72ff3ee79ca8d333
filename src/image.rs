//! A whole sync run over two byte buffers held in memory, and what a run
//! does to a destination, stated over sequences of bytes.
use vstd::prelude::*;
use vstd::slice::slice_subrange;

use crate::blocks::{block_len, block_start, blocks_total, lemma_blocks_cover, Stats};
use crate::session::{final_length, BlockAction, SyncSession};

verus! {

/// The destination after it was grown to `size` bytes: the new bytes read
/// as zero.
pub open spec fn grown(dst: Seq<u8>, size: nat) -> Seq<u8> {
    if dst.len() >= size {
        dst
    } else {
        dst + Seq::new((size - dst.len()) as nat, |_i: int| 0u8)
    }
}

/// The destination after a complete run: the source's bytes, followed by
/// whatever the destination held beyond the source's length.
pub open spec fn synced(src: Seq<u8>, dst: Seq<u8>) -> Seq<u8> {
    if dst.len() > src.len() {
        src + dst.subrange(src.len() as int, dst.len() as int)
    } else {
        src
    }
}

/// Block `index` of `data`, with the source's length `size` deciding where
/// the blocks lie.
pub open spec fn block_of(data: Seq<u8>, size: nat, block_size: nat, index: nat) -> Seq<u8> {
    let start = block_start(index, block_size);
    data.subrange(start as int, (start + block_len(size, block_size, index)) as int)
}

/// Among the first `n` blocks of `src`, how many differ from the same range
/// of `dst`.
pub open spec fn differing_blocks(src: Seq<u8>, dst: Seq<u8>, block_size: nat, n: nat) -> nat
    decreases n,
{
    if n == 0 {
        0
    } else {
        let i = (n - 1) as nat;
        differing_blocks(src, dst, block_size, i) + if block_of(src, src.len(), block_size, i)
            == block_of(dst, src.len(), block_size, i) {
            0nat
        } else {
            1nat
        }
    }
}

/// The blocks that a run rewrites: those of the source that differ from the
/// grown destination.
pub open spec fn rewritten_blocks(src: Seq<u8>, dst: Seq<u8>, block_size: nat) -> nat {
    differing_blocks(
        src,
        grown(dst, src.len()),
        block_size,
        blocks_total(src.len(), block_size),
    )
}

/// Writes `block` into `dst` from index `at` on.
fn overwrite(dst: &mut Vec<u8>, at: usize, block: &[u8])
    requires
        at + block@.len() <= old(dst).len(),
    ensures
        final(dst)@.len() == old(dst)@.len(),
        forall|i: int|
            0 <= i < final(dst)@.len() ==> #[trigger] final(dst)@[i] == if at <= i < at
                + block@.len() {
                block@[i - at]
            } else {
                old(dst)@[i]
            },
{
    let mut k: usize = 0;
    while k < block.len()
        invariant
            at + block@.len() <= old(dst).len(),
            dst@.len() == old(dst)@.len(),
            k <= block@.len(),
            forall|i: int|
                0 <= i < dst@.len() ==> #[trigger] dst@[i] == if at <= i < at + k {
                    block@[i - at]
                } else {
                    old(dst)@[i]
                },
        decreases block@.len() - k,
    {
        dst.set(at + k, block[k]);
        k = k + 1;
    }
}

/// Brings `destination` in line with `source` block by block, as a run over
/// two streams does, and returns the run's counters. The destination is
/// grown with zero bytes where it is shorter than the source, and never
/// shrunk.
pub fn sync_buffers(source: &[u8], destination: &mut Vec<u8>, block_size: u32) -> (r: Stats)
    requires
        block_size > 0,
    ensures
        final(destination)@ == synced(source@, old(destination)@),
        final(destination)@.len() == final_length(source@.len(), old(destination)@.len()),
        r.blocksize == block_size,
        r.total == blocks_total(source@.len(), block_size as nat),
        r.count_ok + r.count_bad == r.total,
        r.count_bad == rewritten_blocks(source@, old(destination)@, block_size as nat),
{
    let mut session = SyncSession::new(source.len() as u64, destination.len() as u64, block_size);
    match session.resize_to() {
        Some(n) => {
            destination.resize(n as usize, 0u8);
        },
        None => {},
    }
    let ghost size = source@.len();
    let ghost bs = block_size as nat;
    let ghost dst0 = grown(old(destination)@, size);
    proof {
        assert(destination@ =~= dst0);
        assert(block_start(0, bs) == 0);
        lemma_blocks_cover(size, bs, 0);
    }
    while !session.is_finished()
        invariant
            session.wf(),
            session.source_size == size,
            session.stats.blocksize == block_size,
            bs == block_size as nat,
            size == source@.len(),
            size == source.len(),
            destination@.len() == destination.len(),
            dst0 == grown(old(destination)@, size),
            destination@.len() == dst0.len(),
            dst0.len() >= size,
            session.consumed() <= size,
            forall|i: int| 0 <= i < session.consumed() ==> #[trigger] destination@[i] == source@[i],
            forall|i: int|
                session.consumed() <= i < dst0.len() ==> #[trigger] destination@[i] == dst0[i],
            session.stats.count_bad == differing_blocks(source@, dst0, bs, session.index()),
        decreases session.stats.total - session.index(),
    {
        let range = session.next_block().unwrap();
        let ghost before = session;
        let ghost n = session.index();
        proof {
            lemma_blocks_cover(size, bs, n);
            lemma_blocks_cover(size, bs, n + 1);
        }
        let start = range.offset as usize;
        let end = (range.offset + range.len) as usize;
        let src_block = slice_subrange(source, start, end);
        let dst_block = slice_subrange(destination.as_slice(), start, end);
        proof {
            assert(dst_block@ =~= block_of(dst0, size, bs, n));
            assert(src_block@ =~= block_of(source@, size, bs, n));
        }
        let action = session.record_block(src_block, dst_block);
        proof {
            assert(session.index() == n + 1);
            assert(block_start(n + 1, bs) == block_start(n, bs) + bs) by (nonlinear_arith);
            assert(session.consumed() == start + range.len);
        }
        let ghost pre = destination@;
        match action {
            Ok(BlockAction::Rewrite { offset }) => {
                overwrite(destination, offset as usize, src_block);
            },
            Ok(BlockAction::Keep) => {},
            Err(_) => {
                proof {
                    assert(false);
                }
            },
        }
        proof {
            assert forall|i: int| 0 <= i < session.consumed() implies #[trigger] destination@[i]
                == source@[i] by {
                if i >= start {
                    assert(src_block@[i - start] == source@[i]);
                    assert(dst_block@[i - start] == pre[i]);
                }
            }
            assert forall|i: int| session.consumed() <= i < dst0.len() implies #[trigger] destination@[i]
                == dst0[i] by {
                assert(pre[i] == dst0[i]);
            }
        }
    }
    proof {
        assert(session.consumed() == size);
        let goal = synced(source@, old(destination)@);
        assert forall|i: int| 0 <= i < destination@.len() implies #[trigger] destination@[i]
            == goal[i] by {
            if i >= size {
                assert(dst0[i] == old(destination)@[i]);
            }
        }
        assert(destination@ =~= goal);
    }
    session.stats
}

/// After a run, the destination holds the source's bytes over the source's
/// whole length, and is at least as long as the source.
pub proof fn lemma_synced_matches_source(src: Seq<u8>, dst: Seq<u8>)
    ensures
        synced(src, dst).len() >= src.len(),
        synced(src, dst).subrange(0, src.len() as int) == src,
{
    assert(synced(src, dst).subrange(0, src.len() as int) =~= src);
}

/// A destination longer than the source keeps its length, and only the
/// bytes below the source's length can change.
pub proof fn lemma_longer_destination_kept(src: Seq<u8>, dst: Seq<u8>)
    requires
        dst.len() > src.len(),
    ensures
        synced(src, dst).len() == dst.len(),
        synced(src, dst).subrange(src.len() as int, dst.len() as int) == dst.subrange(
            src.len() as int,
            dst.len() as int,
        ),
{
    assert(synced(src, dst).subrange(src.len() as int, dst.len() as int) =~= dst.subrange(
        src.len() as int,
        dst.len() as int,
    ));
}

proof fn lemma_no_differing_blocks(src: Seq<u8>, dst: Seq<u8>, block_size: nat, n: nat)
    requires
        block_size > 0,
        dst.len() >= src.len(),
        dst.subrange(0, src.len() as int) == src,
        n <= blocks_total(src.len(), block_size),
    ensures
        differing_blocks(src, dst, block_size, n) == 0,
    decreases n,
{
    if n > 0 {
        let i = (n - 1) as nat;
        lemma_no_differing_blocks(src, dst, block_size, i);
        lemma_blocks_cover(src.len(), block_size, i);
        let start = block_start(i, block_size) as int;
        let end = start + block_len(src.len(), block_size, i);
        assert(block_of(src, src.len(), block_size, i) =~= block_of(
            dst,
            src.len(),
            block_size,
            i,
        )) by {
            assert forall|j: int| start <= j < end implies #[trigger] src[j] == dst[j] by {
                assert(dst.subrange(0, src.len() as int)[j] == dst[j]);
            }
        }
    }
}

/// Running again with an unchanged source rewrites no block and leaves the
/// destination as the first run left it.
pub proof fn lemma_second_run_rewrites_nothing(src: Seq<u8>, dst: Seq<u8>, block_size: nat)
    requires
        block_size > 0,
    ensures
        rewritten_blocks(src, synced(src, dst), block_size) == 0,
        synced(src, synced(src, dst)) == synced(src, dst),
{
    let once = synced(src, dst);
    lemma_synced_matches_source(src, dst);
    assert(grown(once, src.len()) == once);
    lemma_no_differing_blocks(src, once, block_size, blocks_total(src.len(), block_size));
    assert(synced(src, once) =~= once);
}

} // verus!
