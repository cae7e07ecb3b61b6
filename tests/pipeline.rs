use ckb_bench::pipeline::{
    contains_out_point, same_out_point, select_unspent, split_capacity, LiveCellScan, MineSchedule,
    OutPoint, RoundRobin, SpendableUnit,
    TransactionProducer,
};

fn unit(hash: u8, index: u32, capacity: u64) -> SpendableUnit {
    SpendableUnit {
        out_point: OutPoint { tx_hash: vec![hash; 32], index },
        owner: 1,
        capacity,
        block_number: 7,
    }
}

#[test]
fn split_evenly_after_fee() {
    assert_eq!(split_capacity(1003, 2, 1), Some(vec![501, 501]));
    assert_eq!(split_capacity(1000, 3, 0), Some(vec![334, 333, 333]));
    assert_eq!(split_capacity(10, 1, 10), None);
    assert_eq!(split_capacity(10, 0, 1), None);
}

#[test]
fn producer_spends_each_unit_once() {
    let mut p = TransactionProducer::new(2, 1);
    let a = unit(1, 0, 101);
    let tx = p.produce(&a).unwrap();
    assert!(same_out_point(&tx.input, &a.out_point));
    assert_eq!(tx.owner, 1);
    assert_eq!(tx.outputs, vec![50, 50]);
    assert!(p.produce(&a).is_none());
    assert!(p.has_spent(&a.out_point));
    let b = unit(1, 1, 101);
    assert!(!p.has_spent(&b.out_point));
    assert!(p.produce(&b).is_some());
}

#[test]
fn producer_skips_units_that_cannot_pay_the_fee() {
    let mut p = TransactionProducer::new(2, 5);
    let a = unit(2, 0, 5);
    assert!(p.produce(&a).is_none());
    assert!(!p.has_spent(&a.out_point));
}

#[test]
fn out_points_compare_by_hash_and_index() {
    let a = OutPoint { tx_hash: vec![1, 2], index: 0 };
    assert!(same_out_point(&a, &OutPoint { tx_hash: vec![1, 2], index: 0 }));
    assert!(!same_out_point(&a, &OutPoint { tx_hash: vec![1, 3], index: 0 }));
    assert!(!same_out_point(&a, &OutPoint { tx_hash: vec![1, 2], index: 1 }));
}

#[test]
fn round_robin_rotates() {
    let mut r = RoundRobin::new(3);
    let picks: Vec<usize> = (0..4).map(|_| r.next_node()).collect();
    assert_eq!(picks, vec![1, 2, 0, 1]);
    let mut one = RoundRobin::new(1);
    assert_eq!(one.next_node(), 0);
}

#[test]
fn mining_stops_at_target() {
    let mut m = MineSchedule::new(2);
    assert!(!m.after_block());
    assert!(m.after_block());
    let mut forever = MineSchedule::new(0);
    for _ in 0..5 {
        assert!(!forever.after_block());
    }
    assert_eq!(forever.mined, 0);
}

#[test]
fn unspent_units_are_those_not_pending() {
    let found = vec![unit(1, 0, 10), unit(1, 1, 10), unit(2, 0, 10)];
    let pending = vec![OutPoint { tx_hash: vec![1; 32], index: 1 }];
    assert_eq!(select_unspent(&found, &pending), vec![0, 2]);
    assert_eq!(select_unspent(&found, &vec![]), vec![0, 1, 2]);
    assert!(contains_out_point(&pending, &OutPoint { tx_hash: vec![1; 32], index: 1 }));
}

#[test]
fn live_cell_scan_rotates_and_keeps_cursors() {
    let mut scan = LiveCellScan::new(2);
    assert_eq!(scan.next_account(), 0);
    assert_eq!(scan.next_account(), 1);
    assert_eq!(scan.next_account(), 0);
    scan.advance_cursor(1, 50);
    scan.advance_cursor(1, 40);
    assert_eq!(scan.cursors, vec![0, 50]);
}
