//! The load pipeline's decisions: which spendable units become transactions, how a
//! unit's capacity is split among outputs, which node receives the next submission,
//! and when mining stops.
use vstd::prelude::*;

verus! {

/// The identifier of a spendable unit: the hash of the transaction that made it and
/// the index of the output.
#[derive(Clone, Debug)]
pub struct OutPoint {
    pub tx_hash: Vec<u8>,
    pub index: u32,
}

impl View for OutPoint {
    type V = (Seq<u8>, u32);

    open spec fn view(&self) -> (Seq<u8>, u32) {
        (self.tx_hash@, self.index)
    }
}

/// An unspent output of a worker account.
#[derive(Clone, Debug)]
pub struct SpendableUnit {
    pub out_point: OutPoint,
    /// The index of the worker account that owns the unit.
    pub owner: usize,
    pub capacity: u64,
    pub block_number: u64,
}

/// A transaction that spends one unit and pays its capacity, less the fee, back to the
/// unit's owner in `outputs`.
#[derive(Clone, Debug)]
pub struct BuiltTx {
    pub input: OutPoint,
    pub owner: usize,
    pub outputs: Vec<u64>,
}

/// Tells whether two out points name the same unit.
pub fn same_out_point(a: &OutPoint, b: &OutPoint) -> (r: bool)
    ensures
        r == (a@ == b@),
{
    if a.index != b.index || a.tx_hash.len() != b.tx_hash.len() {
        return false;
    }
    let mut k: usize = 0;
    while k < a.tx_hash.len()
        invariant
            k <= a.tx_hash@.len(),
            a.tx_hash@.len() == b.tx_hash@.len(),
            forall|i: int| 0 <= i < k ==> a.tx_hash@[i] == b.tx_hash@[i],
        decreases a.tx_hash@.len() - k,
    {
        if a.tx_hash[k] != b.tx_hash[k] {
            return false;
        }
        k = k + 1;
    }
    assert(a.tx_hash@ =~= b.tx_hash@);
    true
}

fn copy_out_point(a: &OutPoint) -> (r: OutPoint)
    ensures
        r@ == a@,
{
    let mut h: Vec<u8> = Vec::new();
    let mut k: usize = 0;
    while k < a.tx_hash.len()
        invariant
            k <= a.tx_hash@.len(),
            h@ =~= a.tx_hash@.subrange(0, k as int),
        decreases a.tx_hash@.len() - k,
    {
        h.push(a.tx_hash[k]);
        k = k + 1;
    }
    assert(h@ =~= a.tx_hash@);
    OutPoint { tx_hash: h, index: a.index }
}

/// The capacity of a unit split among `n` outputs after the fee: an even share each,
/// the first output also taking what does not divide.
pub open spec fn split_of(capacity: u64, n: nat, fee: u64) -> Seq<u64> {
    let spend: int = capacity - fee;
    Seq::new(
        n,
        |i: int|
            if i == 0 {
                (spend / n as int + spend % n as int) as u64
            } else {
                (spend / n as int) as u64
            },
    )
}

/// Splits a unit's capacity, less the fee, evenly among `n_outputs` outputs. Gives
/// nothing where there are no outputs or the capacity does not exceed the fee.
pub fn split_capacity(capacity: u64, n_outputs: usize, fee: u64) -> (r: Option<Vec<u64>>)
    ensures
        r is None <==> (n_outputs == 0 || capacity <= fee),
        r is Some ==> r->Some_0@ == split_of(capacity, n_outputs as nat, fee),
{
    if n_outputs == 0 || capacity <= fee {
        return None;
    }
    let spend: u64 = capacity - fee;
    let n: u64 = n_outputs as u64;
    let share: u64 = spend / n;
    let rest: u64 = spend % n;
    proof {
        assert(share * n + rest == spend) by (nonlinear_arith)
            requires
                share == spend / n,
                rest == spend % n,
                n > 0,
        ;
        assert(share + rest <= spend) by (nonlinear_arith)
            requires
                share * n + rest == spend,
                n >= 1,
                share >= 0,
        ;
    }
    let mut out: Vec<u64> = Vec::new();
    out.push(share + rest);
    let mut k: usize = 1;
    while k < n_outputs
        invariant
            1 <= k <= n_outputs,
            n == n_outputs,
            share == spend / n,
            rest == spend % n,
            spend == capacity - fee,
            out@ =~= split_of(capacity, n_outputs as nat, fee).subrange(0, k as int),
        decreases n_outputs - k,
    {
        out.push(share);
        k = k + 1;
    }
    Some(out)
}

/// Turns spendable units into transactions, one per unit, and remembers every unit it
/// has spent so that none is spent twice.
pub struct TransactionProducer {
    pub n_outputs: usize,
    pub fee: u64,
    pub consumed: Vec<OutPoint>,
}

/// The units a producer has spent, as contracts see them.
pub open spec fn spent(p: &TransactionProducer) -> Seq<(Seq<u8>, u32)> {
    points_of(p.consumed@)
}

impl TransactionProducer {
    /// No unit appears twice among those spent.
    pub open spec fn wf(&self) -> bool {
        spent(self).no_duplicates()
    }

    /// A producer that has spent nothing yet.
    pub fn new(n_outputs: usize, fee: u64) -> (r: TransactionProducer)
        ensures
            r.wf(),
            r.n_outputs == n_outputs,
            r.fee == fee,
            spent(&r) == Seq::<(Seq<u8>, u32)>::empty(),
    {
        let r = TransactionProducer { n_outputs, fee, consumed: Vec::new() };
        assert(spent(&r) =~= Seq::<(Seq<u8>, u32)>::empty());
        r
    }

    /// Tells whether the producer has already spent a unit.
    pub fn has_spent(&self, o: &OutPoint) -> (r: bool)
        ensures
            r == spent(self).contains(o@),
    {
        contains_out_point(&self.consumed, o)
    }

    /// Builds the transaction that spends `unit`: its capacity less the fee, split among
    /// the configured number of outputs, all paid back to the owner. A unit already spent,
    /// or one that cannot pay more than the fee, is skipped.
    pub fn produce(&mut self, unit: &SpendableUnit) -> (r: Option<BuiltTx>)
        requires
            old(self).wf(),
        ensures
            final(self).wf(),
            final(self).n_outputs == old(self).n_outputs,
            final(self).fee == old(self).fee,
            r is Some <==> (!spent(old(self)).contains(unit.out_point@) && old(self).n_outputs > 0
                && unit.capacity > old(self).fee),
            r is Some ==> {
                &&& r->Some_0.input@ == unit.out_point@
                &&& r->Some_0.owner == unit.owner
                &&& r->Some_0.outputs@ == split_of(
                    unit.capacity,
                    old(self).n_outputs as nat,
                    old(self).fee,
                )
                &&& spent(final(self)) == spent(old(self)).push(unit.out_point@)
            },
            r is None ==> spent(final(self)) == spent(old(self)),
    {
        if self.has_spent(&unit.out_point) {
            return None;
        }
        match split_capacity(unit.capacity, self.n_outputs, self.fee) {
            None => None,
            Some(outputs) => {
                let ghost before = spent(self);
                self.consumed.push(copy_out_point(&unit.out_point));
                proof {
                    assert(spent(self) =~= before.push(unit.out_point@));
                    assert forall|i: int, j: int|
                        0 <= i < spent(self).len() && 0 <= j < spent(self).len() && i != j implies spent(
                        self,
                    )[i] != spent(self)[j] by {
                        if j == before.len() as int {
                            assert(before[i] != unit.out_point@);
                        } else if i == before.len() as int {
                            assert(before[j] != unit.out_point@);
                        }
                    }
                }
                Some(BuiltTx { input: copy_out_point(&unit.out_point), owner: unit.owner, outputs })
            },
        }
    }
}

/// Hands out node indices in turn: each submission goes to the node after the last.
pub struct RoundRobin {
    pub last: usize,
    pub n_nodes: usize,
}

impl RoundRobin {
    /// There is at least one node and the last index names one.
    pub open spec fn wf(&self) -> bool {
        self.n_nodes > 0 && self.last < self.n_nodes
    }

    /// A rotation over `n_nodes` nodes that starts after node zero.
    pub fn new(n_nodes: usize) -> (r: RoundRobin)
        requires
            n_nodes > 0,
        ensures
            r.wf(),
            r.last == 0,
            r.n_nodes == n_nodes,
    {
        RoundRobin { last: 0, n_nodes }
    }

    /// The node that receives the next submission.
    pub fn next_node(&mut self) -> (r: usize)
        requires
            old(self).wf(),
        ensures
            final(self).wf(),
            r == (old(self).last + 1) % (old(self).n_nodes as int),
            final(self).last == r,
            final(self).n_nodes == old(self).n_nodes,
    {
        let r = if self.last + 1 >= self.n_nodes {
            0
        } else {
            self.last + 1
        };
        proof {
            let a = self.last + 1;
            let n = self.n_nodes as int;
            if a >= n {
                assert(a % n == 0) by (nonlinear_arith)
                    requires
                        a == n,
                        n > 0,
                ;
            } else {
                assert(a % n == a) by (nonlinear_arith)
                    requires
                        0 <= a < n,
                ;
            }
        }
        self.last = r;
        r
    }
}

/// Counts the blocks mined across the node set; a target of zero means no end.
pub struct MineSchedule {
    pub n_blocks: u64,
    pub mined: u64,
}

impl MineSchedule {
    /// A schedule that has mined nothing yet.
    pub fn new(n_blocks: u64) -> (r: MineSchedule)
        ensures
            r.n_blocks == n_blocks,
            r.mined == 0,
    {
        MineSchedule { n_blocks, mined: 0 }
    }

    /// Records one mined block and tells whether mining is done.
    pub fn after_block(&mut self) -> (done: bool)
        requires
            old(self).n_blocks == 0 || old(self).mined < old(self).n_blocks,
        ensures
            final(self).n_blocks == old(self).n_blocks,
            final(self).mined == (if old(self).n_blocks == 0 {
                old(self).mined
            } else {
                (old(self).mined + 1) as u64
            }),
            done == (old(self).n_blocks != 0 && final(self).mined >= old(self).n_blocks),
            final(self).n_blocks == 0 || final(self).mined <= final(self).n_blocks,
    {
        if self.n_blocks != 0 {
            self.mined = self.mined + 1;
        }
        self.n_blocks != 0 && self.mined >= self.n_blocks
    }
}

/// The out points of a list, as contracts see them.
pub open spec fn points_of(v: Seq<OutPoint>) -> Seq<(Seq<u8>, u32)> {
    v.map_values(|o: OutPoint| o@)
}

/// Tells whether a list of out points holds `o`.
pub fn contains_out_point(list: &Vec<OutPoint>, o: &OutPoint) -> (r: bool)
    ensures
        r == points_of(list@).contains(o@),
{
    let mut k: usize = 0;
    while k < list.len()
        invariant
            k <= list@.len(),
            forall|i: int| 0 <= i < k ==> list@[i]@ != o@,
        decreases list@.len() - k,
    {
        if same_out_point(&list[k], o) {
            assert(points_of(list@)[k as int] == o@);
            return true;
        }
        k = k + 1;
    }
    false
}

/// The positions, in order, of the units that no pending transaction spends.
pub open spec fn unspent_positions(units: Seq<SpendableUnit>, pending: Seq<(Seq<u8>, u32)>) -> Seq<
    usize,
>
    decreases units.len(),
{
    if units.len() == 0 {
        Seq::empty()
    } else {
        let before = unspent_positions(units.drop_last(), pending);
        if pending.contains(units.last().out_point@) {
            before
        } else {
            before.push((units.len() - 1) as usize)
        }
    }
}

/// Picks out the units found for an account that no pending transaction spends, and
/// gives their positions in `found`, in order.
pub fn select_unspent(found: &Vec<SpendableUnit>, pending: &Vec<OutPoint>) -> (r: Vec<usize>)
    ensures
        r@ == unspent_positions(found@, points_of(pending@)),
{
    let mut r: Vec<usize> = Vec::new();
    let mut k: usize = 0;
    while k < found.len()
        invariant
            k <= found@.len(),
            r@ == unspent_positions(found@.subrange(0, k as int), points_of(pending@)),
        decreases found@.len() - k,
    {
        proof {
            assert(found@.subrange(0, k + 1).drop_last() =~= found@.subrange(0, k as int));
        }
        if !contains_out_point(pending, &found[k].out_point) {
            r.push(k);
        }
        k = k + 1;
    }
    proof {
        assert(found@.subrange(0, k as int) =~= found@);
    }
    r
}

/// The live-cell producer's memory: which worker account it scans next, and for each
/// account the block number up to which its units have been scanned.
pub struct LiveCellScan {
    pub next: usize,
    pub cursors: Vec<u64>,
}

impl LiveCellScan {
    /// There is at least one account and the next one names one.
    pub open spec fn wf(&self) -> bool {
        self.cursors@.len() > 0 && self.next < self.cursors@.len()
    }

    /// A scan over `n_accounts` accounts that starts at the first, with nothing scanned.
    pub fn new(n_accounts: usize) -> (r: LiveCellScan)
        requires
            n_accounts > 0,
        ensures
            r.wf(),
            r.next == 0,
            r.cursors@ == Seq::new(n_accounts as nat, |i: int| 0u64),
    {
        let mut cursors: Vec<u64> = Vec::new();
        let mut k: usize = 0;
        while k < n_accounts
            invariant
                k <= n_accounts,
                cursors@ =~= Seq::new(k as nat, |i: int| 0u64),
            decreases n_accounts - k,
        {
            cursors.push(0);
            k = k + 1;
        }
        LiveCellScan { next: 0, cursors }
    }

    /// The account to scan now; the one after it comes next, round the list.
    pub fn next_account(&mut self) -> (r: usize)
        requires
            old(self).wf(),
        ensures
            final(self).wf(),
            r == old(self).next,
            final(self).next == (if old(self).next + 1 == old(self).cursors@.len() {
                0
            } else {
                old(self).next + 1
            }),
            final(self).cursors == old(self).cursors,
    {
        let r = self.next;
        self.next = if self.next == self.cursors.len() - 1 {
            0
        } else {
            self.next + 1
        };
        r
    }

    /// Records that an account has been scanned up to `scanned_to`. The cursor never
    /// moves back, so a range once exhausted is not scanned again.
    pub fn advance_cursor(&mut self, account: usize, scanned_to: u64)
        requires
            old(self).wf(),
            account < old(self).cursors@.len(),
        ensures
            final(self).wf(),
            final(self).next == old(self).next,
            final(self).cursors@ == old(self).cursors@.update(
                account as int,
                if scanned_to > old(self).cursors@[account as int] {
                    scanned_to
                } else {
                    old(self).cursors@[account as int]
                },
            ),
    {
        let cur = self.cursors[account];
        if scanned_to > cur {
            self.cursors.set(account, scanned_to);
        } else {
            proof {
                assert(self.cursors@ =~= self.cursors@.update(account as int, cur));
            }
        }
    }
}

} // verus!
