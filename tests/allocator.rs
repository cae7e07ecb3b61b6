use ckb_bench::allocator::{batch_count, plan_collect, plan_dispatch, total_capacity, AllocError};

#[test]
fn dispatch_four_workers_from_ten_thousand() {
    let plan = plan_dispatch(&vec![10_000], 4, 2_000, 10, 0).unwrap();
    assert_eq!(plan.transfers.len(), 1);
    let t = &plan.transfers[0];
    assert_eq!(t.first_worker, 0);
    assert_eq!(t.n_workers, 4);
    assert!(t.per_worker >= 2_000);
    assert_eq!(t.inputs, vec![10_000]);
    assert_eq!(t.change, 2_000);
    let root_left = total_capacity(&plan.untouched) + t.change;
    assert!(root_left <= 2_000);
}

#[test]
fn dispatch_splits_batches_and_takes_largest_first() {
    let plan = plan_dispatch(&vec![100, 5_000, 300], 5, 900, 2, 10).unwrap();
    assert_eq!(plan.transfers.len(), 3);
    assert_eq!(plan.transfers[0].inputs, vec![5_000]);
    assert_eq!(plan.transfers[0].change, 5_000 - 1_810);
    assert_eq!(plan.transfers[1].first_worker, 2);
    assert_eq!(plan.transfers[1].inputs, Vec::<u64>::new());
    assert_eq!(plan.transfers[2].first_worker, 4);
    assert_eq!(plan.transfers[2].n_workers, 1);
    let last = plan.transfers[2].change;
    assert_eq!(total_capacity(&plan.untouched) + last, 5_400 - 4_500 - 30);
}

#[test]
fn dispatch_errors() {
    assert_eq!(plan_dispatch(&vec![100], 2, 10, 0, 1).unwrap_err(), AllocError::ZeroLimit);
    assert_eq!(
        plan_dispatch(&vec![100], 2, 50, 2, 1).unwrap_err(),
        AllocError::InsufficientCapacity
    );
    assert!(plan_dispatch(&vec![60, 41], 2, 50, 2, 1).is_ok());
}

#[test]
fn dispatch_to_no_workers() {
    let plan = plan_dispatch(&vec![7], 0, 50, 3, 1).unwrap();
    assert!(plan.transfers.is_empty());
    assert_eq!(plan.untouched, vec![7]);
}

#[test]
fn batches_counted() {
    assert_eq!(batch_count(0, 3), 0);
    assert_eq!(batch_count(3, 3), 1);
    assert_eq!(batch_count(7, 3), 3);
    assert_eq!(batch_count(7, 0), 0);
}

#[test]
fn collect_groups_and_skips() {
    let sweeps = plan_collect(&vec![vec![2_000], vec![], vec![500, 700, 900], vec![5]], 2, 10).unwrap();
    assert_eq!(sweeps.len(), 3);
    assert_eq!((sweeps[0].worker, sweeps[0].inputs.clone(), sweeps[0].returned), (0, vec![2_000], 1_990));
    assert_eq!((sweeps[1].worker, sweeps[1].inputs.clone(), sweeps[1].returned), (2, vec![500, 700], 1_190));
    assert_eq!((sweeps[2].worker, sweeps[2].inputs.clone(), sweeps[2].returned), (2, vec![900], 890));
    assert_eq!(plan_collect(&vec![vec![1]], 0, 1).unwrap_err(), AllocError::ZeroLimit);
}

#[test]
fn collect_after_dispatch_returns_all_but_fees() {
    let fee = 3;
    let plan = plan_dispatch(&vec![10_000], 4, 2_000, 3, fee).unwrap();
    let root_after: u64 = total_capacity(&plan.untouched) + plan.transfers.last().unwrap().change;
    let holdings = vec![vec![2_000]; 4];
    let sweeps = plan_collect(&holdings, 5, fee).unwrap();
    let back: u64 = sweeps.iter().map(|s| s.returned).sum();
    let n_txs = (plan.transfers.len() + sweeps.len()) as u64;
    assert_eq!(root_after + back, 10_000 - n_txs * fee);
}
