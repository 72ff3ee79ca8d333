use blocksync::{sync_buffers, BlockAction, BlockRange, Side, Stats, SyncError, SyncSession};

fn pattern(len: usize, seed: u8) -> Vec<u8> {
    (0..len).map(|i| (i as u8).wrapping_mul(31).wrapping_add(seed)).collect()
}

#[test]
fn stats_new_counts_blocks_by_ceiling() {
    assert_eq!(Stats::new(10000, 4096).total, 3);
    assert_eq!(Stats::new(8192, 4096).total, 2);
    assert_eq!(Stats::new(8193, 4096).total, 3);
    assert_eq!(Stats::new(0, 4096).total, 0);
    assert_eq!(Stats::new(1, 4096).total, 1);
    assert_eq!(Stats::new(u64::MAX, 1).total, u64::MAX);
    let s = Stats::new(5000, 1000);
    assert_eq!(s.count_ok, 0);
    assert_eq!(s.count_bad, 0);
    assert_eq!(s.blocksize, 1000);
    assert_eq!(s.total, 5);
}

#[test]
fn scenario_all_blocks_rewritten() {
    let src = vec![0u8; 8192];
    let mut dst = vec![0xffu8; 8192];
    let stats = sync_buffers(&src, &mut dst, 4096);
    assert_eq!(dst.len(), 8192);
    assert_eq!(dst, src);
    assert_eq!(stats.total, 2);
    assert_eq!(stats.count_ok, 0);
    assert_eq!(stats.count_bad, 2);
}

#[test]
fn empty_destination_is_grown_with_zeros() {
    let src = vec![0u8; 8192];
    let mut dst: Vec<u8> = Vec::new();
    let stats = sync_buffers(&src, &mut dst, 4096);
    assert_eq!(dst, src);
    assert_eq!(stats.count_ok + stats.count_bad, 2);
    assert_eq!(stats.count_ok, 2);
}

#[test]
fn scenario_identical_sides() {
    let src = pattern(10000, 7);
    let mut dst = src.clone();
    let stats = sync_buffers(&src, &mut dst, 4096);
    assert_eq!(stats.total, 3);
    assert_eq!(stats.count_ok, 3);
    assert_eq!(stats.count_bad, 0);
    assert_eq!(dst, src);

    let mut session = SyncSession::new(10000, 10000, 4096);
    let mut lens = Vec::new();
    while let Some(range) = session.next_block() {
        lens.push(range.len);
        let block = &src[range.offset as usize..(range.offset + range.len) as usize];
        assert_eq!(session.record_block(block, block), Ok(BlockAction::Keep));
    }
    assert_eq!(lens, vec![4096, 4096, 1808]);
    assert!(session.is_finished());
}

#[test]
fn scenario_shorter_destination_grown() {
    let src = pattern(5000, 1);
    let mut dst = pattern(3000, 2);
    let stats = sync_buffers(&src, &mut dst, 1000);
    assert_eq!(dst.len(), 5000);
    assert_eq!(dst, src);
    assert_eq!(stats.total, 5);
    assert_eq!(stats.count_bad, 5);
    assert_eq!(stats.count_ok, 0);

    let session = SyncSession::new(5000, 3000, 1000);
    assert_eq!(session.resize_to(), Some(5000));
    assert_eq!(session.final_destination_size(), 5000);
}

#[test]
fn scenario_source_shrinks_mid_run() {
    let src = pattern(5000, 3);
    let mut session = SyncSession::new(5000, 5000, 1000);
    for _ in 0..4 {
        let range = session.next_block().unwrap();
        let block = &src[range.offset as usize..(range.offset + range.len) as usize];
        let stale = vec![0u8; range.len as usize];
        assert_eq!(
            session.record_block(block, &stale),
            Ok(BlockAction::Rewrite { offset: range.offset })
        );
    }
    assert_eq!(session.next_block(), Some(BlockRange { offset: 4000, len: 1000 }));
    let short = &src[4000..4500];
    let dst_block = vec![0u8; 1000];
    let before = session;
    assert_eq!(
        session.record_block(short, &dst_block),
        Err(SyncError::TruncatedRead { side: Side::Source, expected: 1000, actual: 500 })
    );
    assert_eq!(session, before);
    assert_eq!(session.stats.count_bad, 4);
    assert!(!session.is_finished());
}

#[test]
fn truncated_destination_read_is_refused() {
    let mut session = SyncSession::new(3000, 3000, 1000);
    let src = vec![1u8; 1000];
    let dst = vec![1u8; 999];
    assert_eq!(
        session.record_block(&src, &dst),
        Err(SyncError::TruncatedRead { side: Side::Destination, expected: 1000, actual: 999 })
    );
    assert_eq!(session.stats.count_ok, 0);
    assert_eq!(session.record_block(&src, &src), Ok(BlockAction::Keep));
    assert_eq!(session.stats.count_ok, 1);
}

#[test]
fn second_run_rewrites_nothing() {
    let src = pattern(9000, 5);
    let mut dst = pattern(12000, 9);
    let first = sync_buffers(&src, &mut dst, 1024);
    assert!(first.count_bad > 0);
    let after_first = dst.clone();
    let second = sync_buffers(&src, &mut dst, 1024);
    assert_eq!(second.count_bad, 0);
    assert_eq!(second.count_ok, second.total);
    assert_eq!(dst, after_first);
    assert_eq!(&dst[..9000], &src[..]);
}

#[test]
fn partial_difference_counts_only_changed_blocks() {
    let src = pattern(10000, 4);
    let mut dst = src.clone();
    dst[10] ^= 1;
    dst[9999] ^= 1;
    let stats = sync_buffers(&src, &mut dst, 4096);
    assert_eq!(stats.count_ok, 1);
    assert_eq!(stats.count_bad, 2);
    assert_eq!(dst, src);
}

#[test]
fn longer_destination_keeps_length_and_tail() {
    let src = pattern(3000, 6);
    let old = pattern(5000, 8);
    let mut dst = old.clone();
    let session = SyncSession::new(3000, 5000, 1000);
    assert_eq!(session.resize_to(), None);
    assert_eq!(session.final_destination_size(), 5000);
    let stats = sync_buffers(&src, &mut dst, 1000);
    assert_eq!(stats.count_ok + stats.count_bad, 3);
    assert_eq!(dst.len(), 5000);
    assert_eq!(&dst[..3000], &src[..]);
    assert_eq!(&dst[3000..], &old[3000..]);
}

#[test]
fn exact_multiple_ends_in_full_block() {
    let mut session = SyncSession::new(8192, 8192, 4096);
    let mut ranges = Vec::new();
    let block = vec![0u8; 4096];
    while let Some(range) = session.next_block() {
        ranges.push(range);
        session.record_block(&block, &block).unwrap();
    }
    assert_eq!(
        ranges,
        vec![BlockRange { offset: 0, len: 4096 }, BlockRange { offset: 4096, len: 4096 }]
    );
    assert_eq!(session.stats.count_ok, 2);
}

#[test]
fn empty_source_has_no_blocks() {
    let session = SyncSession::new(0, 100, 4096);
    assert!(session.is_finished());
    assert_eq!(session.next_block(), None);
    let mut dst = vec![5u8; 100];
    let stats = sync_buffers(&[], &mut dst, 4096);
    assert_eq!(stats.total, 0);
    assert_eq!(dst, vec![5u8; 100]);
}

#[test]
fn block_size_one() {
    let src = vec![1u8, 2, 3];
    let mut dst = vec![1u8, 0, 3, 4];
    let stats = sync_buffers(&src, &mut dst, 1);
    assert_eq!(stats.total, 3);
    assert_eq!(stats.count_ok, 2);
    assert_eq!(stats.count_bad, 1);
    assert_eq!(dst, vec![1u8, 2, 3, 4]);
}
