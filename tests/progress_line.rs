use blocksync::{output_progress, ProgressTimer, Stats};

#[test]
fn final_line_of_clean_run() {
    let stats = Stats { count_ok: 3, count_bad: 0, blocksize: 4096, total: 3 };
    assert_eq!(
        output_progress(0, stats),
        "[00:00:00 | 100.0%] 3 ok, 0 bad, 0 remaining (0.00 MiB/s)"
    );
}

#[test]
fn line_with_rate_and_padding() {
    let stats = Stats { count_ok: 200, count_bad: 56, blocksize: 4096, total: 1000 };
    assert_eq!(
        output_progress(1000, stats),
        "[00:00:01 |  25.6%] 200 ok, 56 bad, 744 remaining (1.00 MiB/s)"
    );
}

#[test]
fn clock_has_unbounded_hours() {
    let stats = Stats { count_ok: 1, count_bad: 0, blocksize: 1048576, total: 1 };
    assert_eq!(
        output_progress(3_723_000, stats),
        "[01:02:03 | 100.0%] 1 ok, 0 bad, 0 remaining (0.00 MiB/s)"
    );
    assert_eq!(
        output_progress(360_000_000, stats),
        "[100:00:00 | 100.0%] 1 ok, 0 bad, 0 remaining (0.00 MiB/s)"
    );
}

#[test]
fn empty_source_reads_complete() {
    let stats = Stats::new(0, 4096);
    assert_eq!(stats.percent_tenths(), 1000);
    assert_eq!(
        output_progress(2000, stats),
        "[00:00:02 | 100.0%] 0 ok, 0 bad, 0 remaining (0.00 MiB/s)"
    );
}

#[test]
fn derived_figures() {
    let stats = Stats { count_ok: 1, count_bad: 1, blocksize: 4096, total: 3 };
    assert_eq!(stats.done(), 2);
    assert_eq!(stats.remaining(), 1);
    assert_eq!(stats.percent_tenths(), 667);
    let low = Stats { count_ok: 1, count_bad: 0, blocksize: 4096, total: 30 };
    assert_eq!(low.percent_tenths(), 33);
    let one_mib = Stats { count_ok: 256, count_bad: 0, blocksize: 4096, total: 512 };
    assert_eq!(one_mib.throughput_centi_mibs(0), None);
    assert_eq!(one_mib.throughput_centi_mibs(1000), Some(100));
    assert_eq!(one_mib.throughput_centi_mibs(3000), Some(33));
    assert_eq!(one_mib.throughput_centi_mibs(500), Some(200));
    assert_eq!(
        output_progress(3000, one_mib),
        "[00:00:03 |  50.0%] 256 ok, 0 bad, 256 remaining (0.33 MiB/s)"
    );
}

#[test]
fn largest_counters_do_not_overflow() {
    let stats = Stats { count_ok: u64::MAX, count_bad: 0, blocksize: u32::MAX as u64, total: u64::MAX };
    assert_eq!(stats.percent_tenths(), 1000);
    assert!(stats.throughput_centi_mibs(1).unwrap() > u64::MAX as u128);
}

#[test]
fn timer_fires_on_each_boundary() {
    let mut timer = ProgressTimer::new();
    assert_eq!(timer.next_due_ms, 30_000);
    assert!(!timer.due(29_999));
    assert_eq!(timer.next_due_ms, 30_000);
    assert!(timer.due(30_000));
    assert_eq!(timer.next_due_ms, 60_000);
    assert!(timer.due(95_000));
    assert_eq!(timer.next_due_ms, 90_000);
    assert!(timer.due(95_001));
    assert_eq!(timer.next_due_ms, 120_000);
    let mut late = ProgressTimer { next_due_ms: u64::MAX - 1 };
    assert!(late.due(u64::MAX));
    assert_eq!(late.next_due_ms, u64::MAX);
}
