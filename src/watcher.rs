//! Load-state watcher: the tip that every node has reached, zero-load and
//! steady-load detection, and the metrics of a measurement window.
use vstd::prelude::*;

verus! {

/// The smallest of the tips that the nodes report.
pub open spec fn min_of(s: Seq<u64>) -> u64
    recommends
        s.len() > 0,
    decreases s.len(),
{
    if s.len() <= 1 {
        s[0]
    } else {
        let m = min_of(s.drop_last());
        if s.last() < m {
            s.last()
        } else {
            m
        }
    }
}

/// Every node reports an empty transaction pool.
pub open spec fn all_empty(pools: Seq<u64>) -> bool {
    forall|i: int| 0 <= i < pools.len() ==> pools[i] == 0
}

/// What one poll of the cluster saw: each node's tip number and pool size.
pub struct Poll {
    pub tips: Vec<u64>,
    pub pool_sizes: Vec<u64>,
}

impl Poll {
    /// A poll that heard from at least one node.
    pub open spec fn wf(&self) -> bool {
        self.tips@.len() > 0
    }
}

/// The fixed tip after a poll: it never moves back, even where a node reports less.
pub open spec fn next_fixed(prev: u64, tips: Seq<u64>) -> u64 {
    if min_of(tips) > prev {
        min_of(tips)
    } else {
        prev
    }
}

/// The fixed tip after a run of polls, starting from `start`.
pub open spec fn fixed_after(start: u64, polls: Seq<Seq<u64>>) -> u64
    decreases polls.len(),
{
    if polls.len() == 0 {
        start
    } else {
        next_fixed(fixed_after(start, polls.drop_last()), polls.last())
    }
}

/// Zero load over two consecutive polls: the fixed tip did not move and every pool
/// was empty both times.
pub open spec fn zero_load(
    prev_fixed: u64,
    prev_pools: Seq<u64>,
    cur_fixed: u64,
    cur_pools: Seq<u64>,
) -> bool {
    prev_fixed == cur_fixed && all_empty(prev_pools) && all_empty(cur_pools)
}

/// Computes the number that every node has reached: the minimum of the reported tips.
pub fn fixed_tip_of(tips: &Vec<u64>) -> (r: u64)
    requires
        tips@.len() > 0,
    ensures
        r == min_of(tips@),
        forall|i: int| 0 <= i < tips@.len() ==> r <= tips@[i],
        exists|i: int| 0 <= i < tips@.len() && r == tips@[i],
{
    let mut m: u64 = tips[0];
    let mut k: usize = 1;
    proof {
        assert(tips@.subrange(0, 1).drop_last() =~= Seq::<u64>::empty());
    }
    while k < tips.len()
        invariant
            1 <= k <= tips@.len(),
            m == min_of(tips@.subrange(0, k as int)),
            forall|i: int| 0 <= i < k ==> m <= tips@[i],
            exists|i: int| 0 <= i < k && m == tips@[i],
        decreases tips@.len() - k,
    {
        proof {
            assert(tips@.subrange(0, k + 1).drop_last() =~= tips@.subrange(0, k as int));
        }
        if tips[k] < m {
            m = tips[k];
        }
        k = k + 1;
    }
    proof {
        assert(tips@.subrange(0, tips@.len() as int) =~= tips@);
    }
    m
}

/// Tells whether every node reported an empty pool.
pub fn pools_empty(pools: &Vec<u64>) -> (r: bool)
    ensures
        r == all_empty(pools@),
{
    let mut k: usize = 0;
    while k < pools.len()
        invariant
            k <= pools@.len(),
            forall|i: int| 0 <= i < k ==> pools@[i] == 0,
        decreases pools@.len() - k,
    {
        if pools[k] != 0 {
            return false;
        }
        k = k + 1;
    }
    true
}

/// Tells whether two consecutive observations show a cluster at zero load.
pub fn is_zero_load_between(
    prev_fixed: u64,
    prev_pools: &Vec<u64>,
    cur_fixed: u64,
    cur_pools: &Vec<u64>,
) -> (r: bool)
    ensures
        r == zero_load(prev_fixed, prev_pools@, cur_fixed, cur_pools@),
{
    prev_fixed == cur_fixed && pools_empty(prev_pools) && pools_empty(cur_pools)
}

/// Block production and transactions counted over one measurement interval.
#[derive(Clone, Copy, Debug, PartialEq, Eq)]
pub struct IntervalStat {
    pub blocks: u64,
    pub transactions: u64,
}

/// `a` and `b` differ by at most `tolerance_pct` percent of the larger.
pub open spec fn within_tolerance(a: u64, b: u64, tolerance_pct: u64) -> bool {
    let hi: int = if a >= b { a as int } else { b as int };
    let lo: int = if a >= b { b as int } else { a as int };
    (hi - lo) * 100 <= (tolerance_pct as int) * hi
}

/// Steady load: the two most recent intervals agree, within the tolerance, in blocks
/// produced and in transactions committed.
pub open spec fn steady(prev: IntervalStat, cur: IntervalStat, tolerance_pct: u64) -> bool {
    within_tolerance(prev.blocks, cur.blocks, tolerance_pct) && within_tolerance(
        prev.transactions,
        cur.transactions,
        tolerance_pct,
    )
}

fn close_enough(a: u64, b: u64, tolerance_pct: u64) -> (r: bool)
    ensures
        r == within_tolerance(a, b, tolerance_pct),
{
    let (hi, lo) = if a >= b {
        (a, b)
    } else {
        (b, a)
    };
    let lhs: u128 = (hi - lo) as u128 * 100;
    proof {
        assert((tolerance_pct as int) * (hi as int) <= 0xffff_ffff_ffff_ffff_ffff_ffff_ffff_ffffint)
            by (nonlinear_arith)
            requires
                tolerance_pct <= 0xffff_ffff_ffff_ffffu64,
                hi <= 0xffff_ffff_ffff_ffffu64,
        ;
    }
    let rhs: u128 = tolerance_pct as u128 * hi as u128;
    lhs <= rhs
}

/// Tells whether the cluster has reached steady load over the two most recent intervals.
pub fn is_steady_between(prev: IntervalStat, cur: IntervalStat, tolerance_pct: u64) -> (r: bool)
    ensures
        r == steady(prev, cur, tolerance_pct),
{
    close_enough(prev.blocks, cur.blocks, tolerance_pct) && close_enough(
        prev.transactions,
        cur.transactions,
        tolerance_pct,
    )
}

/// One committed block of the measurement window, as the metrics need it.
#[derive(Clone, Copy, Debug, PartialEq, Eq)]
pub struct BlockSummary {
    pub number: u64,
    pub timestamp_ms: u64,
    /// All transactions of the block, the cellbase included.
    pub tx_count: u64,
}

/// Aggregate figures of a measurement window.
#[derive(Clone, Debug)]
pub struct LoadMetrics {
    pub transaction_count: u64,
    pub block_count: u64,
    pub block_intervals: Vec<u64>,
    pub elapsed_ms: u64,
    pub tps: u128,
}

/// The transactions of a block that a benchmark sent: all but the cellbase.
pub open spec fn sent_in(b: BlockSummary) -> int {
    if b.tx_count >= 1 {
        b.tx_count - 1
    } else {
        0
    }
}

/// The sent transactions of a run of blocks.
pub open spec fn sent_total(s: Seq<BlockSummary>) -> int
    decreases s.len(),
{
    if s.len() == 0 {
        0
    } else {
        sent_total(s.drop_last()) + sent_in(s.last())
    }
}

/// The time between two blocks; zero where the clock of the later one is behind.
pub open spec fn gap(a: u64, b: u64) -> u64 {
    if b >= a {
        (b - a) as u64
    } else {
        0
    }
}

/// The intervals between consecutive blocks of the window.
pub open spec fn intervals_of(s: Seq<BlockSummary>) -> Seq<u64> {
    Seq::new(
        if s.len() == 0 {
            0
        } else {
            (s.len() - 1) as nat
        },
        |i: int| gap(s[i].timestamp_ms, s[i + 1].timestamp_ms),
    )
}

/// The time the window spans, from its first block to its last.
pub open spec fn elapsed_of(s: Seq<BlockSummary>) -> u64 {
    if s.len() == 0 {
        0
    } else {
        gap(s[0].timestamp_ms, s.last().timestamp_ms)
    }
}

/// Transactions per second over the window; zero where no time has passed.
pub open spec fn tps_of(count: int, elapsed_ms: u64) -> int {
    if elapsed_ms == 0 {
        0
    } else {
        (count * 1000) / (elapsed_ms as int)
    }
}

proof fn lemma_sent_prefix_bounded(s: Seq<BlockSummary>, j: int)
    requires
        0 <= j <= s.len(),
    ensures
        sent_total(s.subrange(0, j)) <= sent_total(s),
    decreases s.len() - j,
{
    if j < s.len() {
        lemma_sent_prefix_bounded(s, j + 1);
        assert(s.subrange(0, j + 1).drop_last() =~= s.subrange(0, j));
    } else {
        assert(s.subrange(0, j) =~= s);
    }
}

/// Computes the metrics of the blocks from the start marker up to the fixed tip, in
/// order. It reads nothing but its argument, so the same blocks give the same metrics.
pub fn calc_recent_metrics(blocks: &Vec<BlockSummary>) -> (r: LoadMetrics)
    requires
        sent_total(blocks@) <= u64::MAX,
    ensures
        r.transaction_count == sent_total(blocks@),
        r.block_count == blocks@.len(),
        r.block_intervals@ == intervals_of(blocks@),
        r.elapsed_ms == elapsed_of(blocks@),
        r.tps == tps_of(sent_total(blocks@), elapsed_of(blocks@)),
{
    let n = blocks.len();
    let mut count: u64 = 0;
    let mut intervals: Vec<u64> = Vec::new();
    let mut k: usize = 0;
    while k < n
        invariant
            n == blocks@.len(),
            k <= n,
            count == sent_total(blocks@.subrange(0, k as int)),
            sent_total(blocks@) <= u64::MAX,
            intervals@ =~= intervals_of(blocks@).subrange(
                0,
                if k == 0 {
                    0
                } else {
                    k - 1
                },
            ),
        decreases n - k,
    {
        proof {
            assert(blocks@.subrange(0, k + 1).drop_last() =~= blocks@.subrange(0, k as int));
            lemma_sent_prefix_bounded(blocks@, k + 1);
        }
        let b = blocks[k];
        let sent: u64 = if b.tx_count >= 1 {
            b.tx_count - 1
        } else {
            0
        };
        count = count + sent;
        if k > 0 {
            let a = blocks[k - 1];
            let g: u64 = if b.timestamp_ms >= a.timestamp_ms {
                b.timestamp_ms - a.timestamp_ms
            } else {
                0
            };
            intervals.push(g);
        }
        k = k + 1;
    }
    proof {
        assert(blocks@.subrange(0, n as int) =~= blocks@);
    }
    let elapsed: u64 = if n == 0 {
        0
    } else {
        let first = blocks[0].timestamp_ms;
        let last = blocks[n - 1].timestamp_ms;
        if last >= first {
            last - first
        } else {
            0
        }
    };
    let tps: u128 = if elapsed == 0 {
        0
    } else {
        (count as u128 * 1000) / (elapsed as u128)
    };
    LoadMetrics { transaction_count: count, block_count: n as u64, block_intervals: intervals, elapsed_ms: elapsed, tps }
}

/// Block `i` of the window lies within `duration_ms` of the window's first block.
pub open spec fn within_duration(s: Seq<BlockSummary>, i: int, duration_ms: u64) -> bool {
    gap(s[0].timestamp_ms, s[i].timestamp_ms) <= duration_ms
}

/// Counts the leading blocks that lie within `duration_ms` of the first: the statistics
/// of a fixed stretch of time cover those blocks and stop at the first one past it.
pub fn blocks_within(blocks: &Vec<BlockSummary>, duration_ms: u64) -> (r: usize)
    ensures
        r <= blocks@.len(),
        forall|i: int| 0 <= i < r ==> within_duration(blocks@, i, duration_ms),
        r < blocks@.len() ==> !within_duration(blocks@, r as int, duration_ms),
{
    let n = blocks.len();
    if n == 0 {
        return 0;
    }
    let first = blocks[0].timestamp_ms;
    let mut k: usize = 0;
    while k < n
        invariant
            k <= n,
            n == blocks@.len(),
            n > 0,
            first == blocks@[0].timestamp_ms,
            forall|i: int| 0 <= i < k ==> within_duration(blocks@, i, duration_ms),
        decreases n - k,
    {
        let t = blocks[k].timestamp_ms;
        let g: u64 = if t >= first {
            t - first
        } else {
            0
        };
        if g > duration_ms {
            return k;
        }
        k = k + 1;
    }
    k
}

/// The block numbers of the next measurement interval: from just after the last block
/// measured up to the fixed tip; none while the fixed tip has not moved past it.
pub fn next_interval(last_measured: u64, fixed_tip: u64) -> (r: Option<(u64, u64)>)
    ensures
        r == (if fixed_tip > last_measured {
            Some(((last_measured + 1) as u64, fixed_tip))
        } else {
            None::<(u64, u64)>
        }),
{
    if fixed_tip > last_measured {
        Some((last_measured + 1, fixed_tip))
    } else {
        None
    }
}

/// The load states, in the order that a run passes through them.
#[derive(Clone, Copy, Debug, PartialEq, Eq)]
pub enum LoadState {
    Unknown,
    ZeroLoad,
    Measuring,
    SteadyLoad,
}

/// The watcher's memory between polls.
pub struct Watcher {
    pub fixed_tip: u64,
    pub last_pools: Option<Vec<u64>>,
    pub last_interval: Option<IntervalStat>,
    pub state: LoadState,
    pub tolerance_pct: u64,
}

impl Watcher {
    /// A watcher that has seen no poll yet.
    pub fn new(tolerance_pct: u64) -> (r: Watcher)
        ensures
            r.fixed_tip == 0,
            r.last_pools.is_none(),
            r.last_interval.is_none(),
            r.state == LoadState::Unknown,
            r.tolerance_pct == tolerance_pct,
    {
        Watcher {
            fixed_tip: 0,
            last_pools: None,
            last_interval: None,
            state: LoadState::Unknown,
            tolerance_pct,
        }
    }

    /// Takes in one poll and tells whether the cluster is at zero load, that is whether
    /// this poll and the one before show an unchanged fixed tip and empty pools.
    pub fn observe(&mut self, poll: Poll) -> (r: bool)
        requires
            poll.wf(),
        ensures
            final(self).fixed_tip == next_fixed(old(self).fixed_tip, poll.tips@),
            final(self).fixed_tip >= old(self).fixed_tip,
            final(self).last_pools == Some(poll.pool_sizes),
            r == (old(self).last_pools.is_some() && zero_load(
                old(self).fixed_tip,
                old(self).last_pools.unwrap()@,
                final(self).fixed_tip,
                poll.pool_sizes@,
            )),
            final(self).state == (if r {
                LoadState::ZeroLoad
            } else {
                old(self).state
            }),
            final(self).last_interval == old(self).last_interval,
            final(self).tolerance_pct == old(self).tolerance_pct,
    {
        let tip = fixed_tip_of(&poll.tips);
        let next = if tip > self.fixed_tip {
            tip
        } else {
            self.fixed_tip
        };
        let r = match &self.last_pools {
            Some(prev) => is_zero_load_between(self.fixed_tip, prev, next, &poll.pool_sizes),
            None => false,
        };
        self.fixed_tip = next;
        self.last_pools = Some(poll.pool_sizes);
        if r {
            self.state = LoadState::ZeroLoad;
        }
        r
    }

    /// Takes in the counts of one measurement interval and tells whether the load is
    /// steady relative to the interval before.
    pub fn observe_interval(&mut self, cur: IntervalStat) -> (r: bool)
        ensures
            r == (old(self).last_interval.is_some() && steady(
                old(self).last_interval.unwrap(),
                cur,
                old(self).tolerance_pct,
            )),
            final(self).last_interval == Some(cur),
            final(self).state == (if r {
                LoadState::SteadyLoad
            } else {
                LoadState::Measuring
            }),
            final(self).fixed_tip == old(self).fixed_tip,
            final(self).last_pools == old(self).last_pools,
            final(self).tolerance_pct == old(self).tolerance_pct,
    {
        let r = match self.last_interval {
            Some(prev) => is_steady_between(prev, cur, self.tolerance_pct),
            None => false,
        };
        self.last_interval = Some(cur);
        self.state = if r {
            LoadState::SteadyLoad
        } else {
            LoadState::Measuring
        };
        r
    }
}

/// The fixed tip never decreases along any run of polls: each later value is at least
/// each earlier one.
pub proof fn lemma_fixed_tip_monotone(start: u64, polls: Seq<Seq<u64>>, i: int, j: int)
    requires
        0 <= i <= j <= polls.len(),
    ensures
        fixed_after(start, polls.subrange(0, i)) <= fixed_after(start, polls.subrange(0, j)),
    decreases j - i,
{
    if i < j {
        lemma_fixed_tip_monotone(start, polls, i, j - 1);
        assert(polls.subrange(0, j).drop_last() =~= polls.subrange(0, j - 1));
    }
}

/// A poll in which some node reports a non-empty pool never shows zero load.
pub proof fn lemma_busy_pool_is_not_zero_load(
    prev_fixed: u64,
    prev_pools: Seq<u64>,
    cur_fixed: u64,
    cur_pools: Seq<u64>,
    k: int,
)
    requires
        (0 <= k < prev_pools.len() && prev_pools[k] != 0) || (0 <= k < cur_pools.len()
            && cur_pools[k] != 0),
    ensures
        !zero_load(prev_fixed, prev_pools, cur_fixed, cur_pools),
{
}

} // verus!
