//! The protocol shim: the two node protocol versions' shapes of a block, a header and
//! the consensus parameters, and the translation between them, so that every caller
//! sees the newer shape; and the poll that follows a submission.
use vstd::prelude::*;

verus! {

/// A block header as the newer protocol shapes it.
#[derive(Clone, Copy, Debug)]
pub struct Header {
    pub version: u32,
    pub compact_target: u32,
    pub timestamp: u64,
    pub number: u64,
    pub epoch: u64,
    pub parent_hash: [u8; 32],
    pub transactions_root: [u8; 32],
    pub proposals_hash: [u8; 32],
    pub extra_hash: [u8; 32],
    pub dao: [u8; 32],
    pub nonce: u128,
}

/// A block header as the older protocol shapes it: the same fields, with `uncles_hash`
/// where the newer one has `extra_hash`.
#[derive(Clone, Copy, Debug)]
pub struct Header2019 {
    pub version: u32,
    pub compact_target: u32,
    pub timestamp: u64,
    pub number: u64,
    pub epoch: u64,
    pub parent_hash: [u8; 32],
    pub transactions_root: [u8; 32],
    pub proposals_hash: [u8; 32],
    pub uncles_hash: [u8; 32],
    pub dao: [u8; 32],
    pub nonce: u128,
}

/// The older shape of a header: the rename of `extra_hash` to `uncles_hash`.
pub open spec fn spec_header_to_2019(h: Header) -> Header2019 {
    Header2019 {
        version: h.version,
        compact_target: h.compact_target,
        timestamp: h.timestamp,
        number: h.number,
        epoch: h.epoch,
        parent_hash: h.parent_hash,
        transactions_root: h.transactions_root,
        proposals_hash: h.proposals_hash,
        uncles_hash: h.extra_hash,
        dao: h.dao,
        nonce: h.nonce,
    }
}

/// The newer shape of a header: the rename of `uncles_hash` to `extra_hash`.
pub open spec fn spec_header_from_2019(h: Header2019) -> Header {
    Header {
        version: h.version,
        compact_target: h.compact_target,
        timestamp: h.timestamp,
        number: h.number,
        epoch: h.epoch,
        parent_hash: h.parent_hash,
        transactions_root: h.transactions_root,
        proposals_hash: h.proposals_hash,
        extra_hash: h.uncles_hash,
        dao: h.dao,
        nonce: h.nonce,
    }
}

/// Translates a header into the older protocol's shape.
pub fn header_to_2019(h: &Header) -> (r: Header2019)
    ensures
        r == spec_header_to_2019(*h),
{
    Header2019 {
        version: h.version,
        compact_target: h.compact_target,
        timestamp: h.timestamp,
        number: h.number,
        epoch: h.epoch,
        parent_hash: h.parent_hash,
        transactions_root: h.transactions_root,
        proposals_hash: h.proposals_hash,
        uncles_hash: h.extra_hash,
        dao: h.dao,
        nonce: h.nonce,
    }
}

/// Translates a header of the older protocol into the newer shape.
pub fn header_from_2019(h: &Header2019) -> (r: Header)
    ensures
        r == spec_header_from_2019(*h),
{
    Header {
        version: h.version,
        compact_target: h.compact_target,
        timestamp: h.timestamp,
        number: h.number,
        epoch: h.epoch,
        parent_hash: h.parent_hash,
        transactions_root: h.transactions_root,
        proposals_hash: h.proposals_hash,
        extra_hash: h.uncles_hash,
        dao: h.dao,
        nonce: h.nonce,
    }
}

/// An uncle of a block, in the newer shape.
#[derive(Debug)]
pub struct UncleBlock {
    pub header: Header,
    pub proposals: Vec<[u8; 10]>,
}

/// An uncle of a block, in the older shape.
#[derive(Debug)]
pub struct UncleBlock2019 {
    pub header: Header2019,
    pub proposals: Vec<[u8; 10]>,
}

/// A block in the newer shape. Transactions are carried as their serialized bytes: the
/// two protocols shape them alike.
#[derive(Debug)]
pub struct Block {
    pub header: Header,
    pub uncles: Vec<UncleBlock>,
    pub transactions: Vec<Vec<u8>>,
    pub proposals: Vec<[u8; 10]>,
    /// Present only in the newer protocol; the older one has no such field.
    pub extension: Option<Vec<u8>>,
}

/// A block in the older shape.
#[derive(Debug)]
pub struct Block2019 {
    pub header: Header2019,
    pub uncles: Vec<UncleBlock2019>,
    pub transactions: Vec<Vec<u8>>,
    pub proposals: Vec<[u8; 10]>,
}

/// `r` is `b` in the older shape: every header renamed, the rest carried over, the
/// extension left out.
pub open spec fn block_in_2019(b: Block, r: Block2019) -> bool {
    &&& r.header == spec_header_to_2019(b.header)
    &&& r.uncles@.len() == b.uncles@.len()
    &&& forall|i: int|
        #![trigger r.uncles@[i]]
        0 <= i < r.uncles@.len() ==> r.uncles@[i].header == spec_header_to_2019(
            b.uncles@[i].header,
        ) && r.uncles@[i].proposals == b.uncles@[i].proposals
    &&& r.transactions == b.transactions
    &&& r.proposals == b.proposals
}

/// `r` is `b` in the newer shape: every header renamed, the rest carried over, and no
/// extension, which the older protocol never has.
pub open spec fn block_in_2021(b: Block2019, r: Block) -> bool {
    &&& r.header == spec_header_from_2019(b.header)
    &&& r.uncles@.len() == b.uncles@.len()
    &&& forall|i: int|
        #![trigger r.uncles@[i]]
        0 <= i < r.uncles@.len() ==> r.uncles@[i].header == spec_header_from_2019(
            b.uncles@[i].header,
        ) && r.uncles@[i].proposals == b.uncles@[i].proposals
    &&& r.transactions == b.transactions
    &&& r.proposals == b.proposals
    &&& r.extension is None
}

/// Translates a block into the older protocol's shape.
pub fn block_to_2019(b: Block) -> (r: Block2019)
    ensures
        block_in_2019(b, r),
{
    let ghost orig = b;
    let Block { header, uncles, transactions, proposals, extension: _ } = b;
    let mut rest = uncles;
    let mut out: Vec<UncleBlock2019> = Vec::new();
    while rest.len() > 0
        invariant
            out@.len() + rest@.len() == orig.uncles@.len(),
            rest@ == orig.uncles@.subrange(out@.len() as int, orig.uncles@.len() as int),
            forall|i: int|
                #![trigger out@[i]]
                0 <= i < out@.len() ==> out@[i].header == spec_header_to_2019(
                    orig.uncles@[i].header,
                ) && out@[i].proposals == orig.uncles@[i].proposals,
        decreases rest@.len(),
    {
        let u = rest.remove(0);
        proof {
            assert(u == orig.uncles@[out@.len() as int]);
        }
        let ghost before = out@;
        out.push(UncleBlock2019 { header: header_to_2019(&u.header), proposals: u.proposals });
        proof {
            assert(rest@ =~= orig.uncles@.subrange(out@.len() as int, orig.uncles@.len() as int));
            assert forall|i: int| 0 <= i < before.len() implies out@[i] == before[i] by {}
        }
    }
    Block2019 { header: header_to_2019(&header), uncles: out, transactions, proposals }
}

/// Translates a block of the older protocol into the newer shape.
pub fn block_from_2019(b: Block2019) -> (r: Block)
    ensures
        block_in_2021(b, r),
{
    let ghost orig = b;
    let Block2019 { header, uncles, transactions, proposals } = b;
    let mut rest = uncles;
    let mut out: Vec<UncleBlock> = Vec::new();
    while rest.len() > 0
        invariant
            out@.len() + rest@.len() == orig.uncles@.len(),
            rest@ == orig.uncles@.subrange(out@.len() as int, orig.uncles@.len() as int),
            forall|i: int|
                #![trigger out@[i]]
                0 <= i < out@.len() ==> out@[i].header == spec_header_from_2019(
                    orig.uncles@[i].header,
                ) && out@[i].proposals == orig.uncles@[i].proposals,
        decreases rest@.len(),
    {
        let u = rest.remove(0);
        proof {
            assert(u == orig.uncles@[out@.len() as int]);
        }
        let ghost before = out@;
        out.push(UncleBlock { header: header_from_2019(&u.header), proposals: u.proposals });
        proof {
            assert(rest@ =~= orig.uncles@.subrange(out@.len() as int, orig.uncles@.len() as int));
            assert forall|i: int| 0 <= i < before.len() implies out@[i] == before[i] by {}
        }
    }
    Block {
        header: header_from_2019(&header),
        uncles: out,
        transactions,
        proposals,
        extension: None,
    }
}

/// A header survives the trip to the older shape and back unchanged.
pub proof fn lemma_header_round_trip(h: Header)
    ensures
        spec_header_from_2019(spec_header_to_2019(h)) == h,
{
}

/// A block taken to the older shape and back equals the block it started from in every
/// field but the extension, which the older protocol cannot carry and which comes back
/// empty.
pub proof fn lemma_block_round_trip(b: Block, mid: Block2019, r: Block)
    requires
        block_in_2019(b, mid),
        block_in_2021(mid, r),
    ensures
        r.header == b.header,
        r.uncles@.len() == b.uncles@.len(),
        forall|i: int|
            #![trigger r.uncles@[i]]
            0 <= i < r.uncles@.len() ==> r.uncles@[i].header == b.uncles@[i].header
                && r.uncles@[i].proposals == b.uncles@[i].proposals,
        r.transactions == b.transactions,
        r.proposals == b.proposals,
        r.extension is None,
{
    assert forall|i: int|
        #![trigger r.uncles@[i]]
        0 <= i < r.uncles@.len() implies r.uncles@[i].header == b.uncles@[i].header
        && r.uncles@[i].proposals == b.uncles@[i].proposals by {
        assert(mid.uncles@[i].header == spec_header_to_2019(b.uncles@[i].header));
    }
}

/// A hard fork feature that the newer protocol reports among the consensus parameters.
#[derive(Debug)]
pub struct HardforkFeature {
    pub rfc: String,
    pub epoch_number: Option<u64>,
}

/// The consensus parameters in the newer shape.
#[derive(Debug)]
pub struct Consensus {
    pub id: String,
    pub genesis_hash: [u8; 32],
    pub epoch_duration_target: u64,
    pub permanent_difficulty_in_dummy: bool,
    /// Present only in the newer protocol.
    pub hardfork_features: Vec<HardforkFeature>,
}

/// The consensus parameters in the older shape, which has no hard fork features.
#[derive(Debug)]
pub struct Consensus2019 {
    pub id: String,
    pub genesis_hash: [u8; 32],
    pub epoch_duration_target: u64,
    pub permanent_difficulty_in_dummy: bool,
}

/// Translates consensus parameters of the older protocol into the newer shape, with an
/// empty list of hard fork features.
pub fn consensus_from_2019(c: Consensus2019) -> (r: Consensus)
    ensures
        r.id == c.id,
        r.genesis_hash == c.genesis_hash,
        r.epoch_duration_target == c.epoch_duration_target,
        r.permanent_difficulty_in_dummy == c.permanent_difficulty_in_dummy,
        r.hardfork_features@.len() == 0,
{
    Consensus {
        id: c.id,
        genesis_hash: c.genesis_hash,
        epoch_duration_target: c.epoch_duration_target,
        permanent_difficulty_in_dummy: c.permanent_difficulty_in_dummy,
        hardfork_features: Vec::new(),
    }
}

/// Translates consensus parameters into the older shape, leaving out the hard fork
/// features.
pub fn consensus_to_2019(c: Consensus) -> (r: Consensus2019)
    ensures
        r.id == c.id,
        r.genesis_hash == c.genesis_hash,
        r.epoch_duration_target == c.epoch_duration_target,
        r.permanent_difficulty_in_dummy == c.permanent_difficulty_in_dummy,
{
    Consensus2019 {
        id: c.id,
        genesis_hash: c.genesis_hash,
        epoch_duration_target: c.epoch_duration_target,
        permanent_difficulty_in_dummy: c.permanent_difficulty_in_dummy,
    }
}

/// What a node reports of a submitted transaction.
#[derive(Clone, Copy, Debug, PartialEq, Eq, Structural)]
pub enum TxStatus {
    Pending,
    Proposed,
    Committed,
    Unknown,
    Rejected,
}

/// What follows one status poll after a submission.
#[derive(Clone, Copy, Debug, PartialEq, Eq, Structural)]
pub enum PollStep {
    /// The node knows the transaction: its effects can be relied on.
    Settled,
    /// Ask the node again.
    PollAgain,
    /// The node still does not know the transaction after every poll allowed.
    TimedOut,
}

/// Decides the step after the `polls_done`-th status poll of a submitted transaction
/// (counting from one): settled once the node reports any status but unknown, timed
/// out once `max_polls` polls have all come back unknown or empty.
pub fn after_status_poll(status: Option<TxStatus>, polls_done: u64, max_polls: u64) -> (r: PollStep)
    ensures
        r == (if status is Some && status->Some_0 != TxStatus::Unknown {
            PollStep::Settled
        } else if polls_done >= max_polls {
            PollStep::TimedOut
        } else {
            PollStep::PollAgain
        }),
{
    match status {
        Some(s) if s != TxStatus::Unknown => PollStep::Settled,
        _ => if polls_done >= max_polls {
            PollStep::TimedOut
        } else {
            PollStep::PollAgain
        },
    }
}

} // verus!
