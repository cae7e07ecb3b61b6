use ckb_bench::shim::{
    after_status_poll, block_from_2019, block_to_2019, consensus_from_2019, consensus_to_2019,
    header_from_2019, header_to_2019, Block, Consensus, Consensus2019, HardforkFeature, Header,
    PollStep, TxStatus, UncleBlock,
};

fn header(n: u64, extra: u8) -> Header {
    Header {
        version: 0,
        compact_target: 0x1d00_ffff,
        timestamp: 1_600_000_000_000 + n,
        number: n,
        epoch: 3,
        parent_hash: [1; 32],
        transactions_root: [2; 32],
        proposals_hash: [3; 32],
        extra_hash: [extra; 32],
        dao: [5; 32],
        nonce: 42,
    }
}

#[test]
fn header_renames_extra_hash() {
    let h = header(9, 4);
    let old = header_to_2019(&h);
    assert_eq!(old.uncles_hash, [4; 32]);
    assert_eq!(old.number, 9);
    let back = header_from_2019(&old);
    assert_eq!(back.extra_hash, [4; 32]);
    assert_eq!(back.timestamp, h.timestamp);
    assert_eq!(back.nonce, 42);
}

#[test]
fn block_round_trip_keeps_all_but_extension() {
    let b = Block {
        header: header(10, 7),
        uncles: vec![
            UncleBlock { header: header(8, 8), proposals: vec![[9; 10]] },
            UncleBlock { header: header(9, 6), proposals: vec![] },
        ],
        transactions: vec![vec![1, 2, 3], vec![4]],
        proposals: vec![[1; 10]],
        extension: Some(vec![0xaa]),
    };
    let old = block_to_2019(b);
    assert_eq!(old.header.uncles_hash, [7; 32]);
    assert_eq!(old.uncles.len(), 2);
    assert_eq!(old.uncles[1].header.uncles_hash, [6; 32]);
    let back = block_from_2019(old);
    assert_eq!(back.header.extra_hash, [7; 32]);
    assert_eq!(back.uncles[0].header.extra_hash, [8; 32]);
    assert_eq!(back.uncles[0].proposals, vec![[9; 10]]);
    assert_eq!(back.uncles[1].header.number, 9);
    assert_eq!(back.transactions, vec![vec![1, 2, 3], vec![4]]);
    assert_eq!(back.proposals, vec![[1; 10]]);
    assert!(back.extension.is_none());
}

#[test]
fn consensus_gains_empty_hardfork_features() {
    let c = Consensus2019 {
        id: "ckb_dev".to_string(),
        genesis_hash: [3; 32],
        epoch_duration_target: 14_400,
        permanent_difficulty_in_dummy: true,
    };
    let n = consensus_from_2019(c);
    assert_eq!(n.id, "ckb_dev");
    assert!(n.hardfork_features.is_empty());
    assert!(n.permanent_difficulty_in_dummy);
    let newer = Consensus {
        id: "x".to_string(),
        genesis_hash: [0; 32],
        epoch_duration_target: 1,
        permanent_difficulty_in_dummy: false,
        hardfork_features: vec![HardforkFeature { rfc: "0028".to_string(), epoch_number: Some(3) }],
    };
    let old = consensus_to_2019(newer);
    assert_eq!(old.id, "x");
    assert_eq!(old.epoch_duration_target, 1);
}

#[test]
fn status_poll_settles_or_times_out() {
    assert_eq!(after_status_poll(Some(TxStatus::Pending), 1, 10), PollStep::Settled);
    assert_eq!(after_status_poll(Some(TxStatus::Rejected), 10, 10), PollStep::Settled);
    assert_eq!(after_status_poll(Some(TxStatus::Unknown), 1, 10), PollStep::PollAgain);
    assert_eq!(after_status_poll(None, 9, 10), PollStep::PollAgain);
    assert_eq!(after_status_poll(None, 10, 10), PollStep::TimedOut);
}

