use ckb_bench::watcher::{
    calc_recent_metrics, fixed_tip_of, is_steady_between, is_zero_load_between, BlockSummary,
    next_interval, IntervalStat, LoadState, Poll, Watcher,
};

fn poll(tips: Vec<u64>, pools: Vec<u64>) -> Poll {
    Poll { tips, pool_sizes: pools }
}

#[test]
fn fixed_tip_is_the_smallest_tip() {
    assert_eq!(fixed_tip_of(&vec![5, 3, 7]), 3);
    assert_eq!(fixed_tip_of(&vec![9]), 9);
}

#[test]
fn fixed_tip_never_moves_back() {
    let mut w = Watcher::new(10);
    w.observe(poll(vec![10, 12], vec![1, 0]));
    assert_eq!(w.fixed_tip, 10);
    w.observe(poll(vec![8, 12], vec![0, 0]));
    assert_eq!(w.fixed_tip, 10);
    w.observe(poll(vec![15, 14], vec![0, 0]));
    assert_eq!(w.fixed_tip, 14);
}

#[test]
fn zero_load_needs_two_quiet_polls() {
    let mut w = Watcher::new(10);
    assert!(!w.observe(poll(vec![4, 4], vec![0, 0])));
    assert!(w.observe(poll(vec![4, 5], vec![0, 0])));
    assert_eq!(w.state, LoadState::ZeroLoad);
}

#[test]
fn zero_load_false_when_tip_moves() {
    let mut w = Watcher::new(10);
    w.observe(poll(vec![4, 4], vec![0, 0]));
    assert!(!w.observe(poll(vec![5, 5], vec![0, 0])));
}

#[test]
fn zero_load_false_when_a_pool_is_busy() {
    assert!(!is_zero_load_between(4, &vec![0, 0], 4, &vec![0, 3]));
    assert!(!is_zero_load_between(4, &vec![2, 0], 4, &vec![0, 0]));
    assert!(is_zero_load_between(4, &vec![0, 0], 4, &vec![0, 0]));
}

#[test]
fn steady_within_tolerance() {
    let a = IntervalStat { blocks: 100, transactions: 1000 };
    let b = IntervalStat { blocks: 95, transactions: 1040 };
    assert!(is_steady_between(a, b, 5));
    assert!(!is_steady_between(a, b, 3));
    let c = IntervalStat { blocks: 0, transactions: 0 };
    assert!(is_steady_between(c, c, 0));
}

#[test]
fn steady_load_after_two_close_intervals() {
    let mut w = Watcher::new(10);
    assert!(!w.observe_interval(IntervalStat { blocks: 10, transactions: 100 }));
    assert_eq!(w.state, LoadState::Measuring);
    assert!(!w.observe_interval(IntervalStat { blocks: 20, transactions: 100 }));
    assert!(w.observe_interval(IntervalStat { blocks: 19, transactions: 95 }));
    assert_eq!(w.state, LoadState::SteadyLoad);
}

#[test]
fn metrics_of_a_window() {
    let blocks = vec![
        BlockSummary { number: 10, timestamp_ms: 1000, tx_count: 1 },
        BlockSummary { number: 11, timestamp_ms: 2000, tx_count: 3 },
        BlockSummary { number: 12, timestamp_ms: 4000, tx_count: 5 },
    ];
    let m = calc_recent_metrics(&blocks);
    assert_eq!(m.transaction_count, 6);
    assert_eq!(m.block_count, 3);
    assert_eq!(m.block_intervals, vec![1000, 2000]);
    assert_eq!(m.elapsed_ms, 3000);
    assert_eq!(m.tps, 2);
    let again = calc_recent_metrics(&blocks);
    assert_eq!(again.transaction_count, m.transaction_count);
    assert_eq!(again.block_intervals, m.block_intervals);
}

#[test]
fn bench_window_has_transactions_and_positive_intervals() {
    let blocks = vec![
        BlockSummary { number: 1, timestamp_ms: 500, tx_count: 3 },
        BlockSummary { number: 2, timestamp_ms: 1500, tx_count: 2 },
    ];
    let m = calc_recent_metrics(&blocks);
    assert!(m.transaction_count > 0);
    assert!(m.block_intervals.iter().all(|i| *i > 0));
}

#[test]
fn metrics_of_an_empty_window() {
    let m = calc_recent_metrics(&vec![]);
    assert_eq!(m.transaction_count, 0);
    assert_eq!(m.block_intervals, Vec::<u64>::new());
    assert_eq!(m.tps, 0);
}

#[test]
fn intervals_follow_the_fixed_tip() {
    assert_eq!(next_interval(10, 15), Some((11, 15)));
    assert_eq!(next_interval(10, 10), None);
    assert_eq!(next_interval(10, 9), None);
}
