//! Capacity dispatch and collect: fanning a funded account's balance out to worker
//! accounts in batched transactions, and sweeping it back.
use vstd::multiset::Multiset;
use vstd::prelude::*;

verus! {

/// The total capacity of a list of spendable units.
pub open spec fn sum(s: Seq<u64>) -> int
    decreases s.len(),
{
    if s.len() == 0 {
        0
    } else {
        sum(s.drop_last()) + s.last()
    }
}

/// How many transactions it takes to pay `n` workers with at most `m` outputs each.
pub open spec fn batches(n: nat, m: nat) -> nat
    decreases n,
{
    if n == 0 || m == 0 {
        0
    } else if n <= m {
        1
    } else {
        1 + batches((n - m) as nat, m)
    }
}

/// Why a plan cannot be made.
#[derive(Clone, Copy, Debug, PartialEq, Eq)]
pub enum AllocError {
    /// The per-transaction limit on outputs or inputs is zero.
    ZeroLimit,
    /// The root account cannot pay every worker its target and every fee.
    InsufficientCapacity,
}

/// One dispatch transaction. It spends `inputs` of the root (and the change of the
/// transaction before it, when there is one), pays `per_worker` to each of the workers
/// `first_worker .. first_worker + n_workers`, and returns `change` to the root.
#[derive(Clone, Debug)]
pub struct Transfer {
    pub inputs: Vec<u64>,
    pub first_worker: usize,
    pub n_workers: usize,
    pub per_worker: u64,
    pub change: u64,
}

/// The transactions of a dispatch, in the order they are submitted, and the units of
/// the root that none of them spends.
#[derive(Clone, Debug)]
pub struct DispatchPlan {
    pub transfers: Vec<Transfer>,
    pub untouched: Vec<u64>,
}

/// What the root must hold for a dispatch: each worker's target and one fee per
/// transaction.
pub open spec fn dispatch_cost(n_workers: nat, target: u64, max_outputs: nat, fee: u64) -> int {
    n_workers * target + batches(n_workers, max_outputs) * fee
}

/// The change that the `i`-th transaction spends: the one before it made it.
pub open spec fn carried_into(t: Seq<Transfer>, i: int) -> int {
    if i == 0 {
        0
    } else {
        t[i - 1].change as int
    }
}

/// The root's balance once the whole plan is through: what was left untouched and the
/// last change.
pub open spec fn root_after(p: DispatchPlan) -> int {
    sum(p.untouched@) + carried_into(p.transfers@, p.transfers@.len() as int)
}

/// The units that a run of transfers spends, all together.
pub open spec fn spent_of(t: Seq<Transfer>) -> Multiset<u64>
    decreases t.len(),
{
    if t.len() == 0 {
        Multiset::empty()
    } else {
        spent_of(t.drop_last()).add(t.last().inputs@.to_multiset())
    }
}

/// Every unit that the plan spends is at least as large as every unit it leaves alone.
pub open spec fn largest_first(p: DispatchPlan) -> bool {
    forall|i: int, j: int, k: int|
        0 <= i < p.transfers@.len() && 0 <= j < p.transfers@[i].inputs@.len() && 0 <= k
            < p.untouched@.len() ==> #[trigger] p.transfers@[i].inputs@[j] >= #[trigger] p.untouched@[k]
}

/// A dispatch plan that pays every worker `target` in batches of `max_outputs`, each
/// transaction balanced, the root left with its total less the targets and the fees.
pub open spec fn is_dispatch(
    root_units: Seq<u64>,
    n_workers: nat,
    target: u64,
    max_outputs: nat,
    fee: u64,
    p: DispatchPlan,
) -> bool {
    let t = p.transfers@;
    &&& max_outputs > 0
    &&& t.len() == batches(n_workers, max_outputs)
    &&& forall|i: int|
        #![trigger t[i]]
        0 <= i < t.len() ==> {
            &&& t[i].first_worker == (if i == 0 {
                0
            } else {
                t[i - 1].first_worker + t[i - 1].n_workers
            })
            &&& t[i].n_workers == (if n_workers - t[i].first_worker <= max_outputs {
                n_workers - t[i].first_worker
            } else {
                max_outputs as int
            })
            &&& t[i].n_workers > 0
            &&& t[i].per_worker == target
            &&& carried_into(t, i) + sum(t[i].inputs@) == t[i].n_workers * target + fee
                + t[i].change
            &&& t[i].inputs@.len() > 0 ==> carried_into(t, i) + sum(t[i].inputs@.drop_last())
                < t[i].n_workers * target + fee
        }
    &&& t.len() > 0 ==> t.last().first_worker + t.last().n_workers == n_workers
    &&& root_units.to_multiset() == p.untouched@.to_multiset().add(spent_of(t))
    &&& root_after(p) == sum(root_units) - dispatch_cost(n_workers, target, max_outputs, fee)
}

proof fn lemma_sum_remove(s: Seq<u64>, i: int)
    requires
        0 <= i < s.len(),
    ensures
        sum(s.remove(i)) == sum(s) - s[i],
    decreases s.len(),
{
    if i == s.len() - 1 {
        assert(s.remove(i) =~= s.drop_last());
    } else {
        lemma_sum_remove(s.drop_last(), i);
        assert(s.remove(i).drop_last() =~= s.drop_last().remove(i));
    }
}

proof fn lemma_sum_push(s: Seq<u64>, x: u64)
    ensures
        sum(s.push(x)) == sum(s) + x,
{
    assert(s.push(x).drop_last() =~= s);
}

proof fn lemma_sum_nonneg(s: Seq<u64>)
    ensures
        sum(s) >= 0,
        sum(s) > 0 ==> s.len() > 0,
    decreases s.len(),
{
    if s.len() > 0 {
        lemma_sum_nonneg(s.drop_last());
    }
}

fn index_of_largest(v: &Vec<u64>) -> (r: usize)
    requires
        v@.len() > 0,
    ensures
        r < v@.len(),
        forall|j: int| 0 <= j < v@.len() ==> v@[j] <= v@[r as int],
{
    let mut best: usize = 0;
    let mut k: usize = 1;
    while k < v.len()
        invariant
            1 <= k <= v@.len(),
            best < k,
            forall|j: int| 0 <= j < k ==> v@[j] <= v@[best as int],
        decreases v@.len() - k,
    {
        if v[k] > v[best] {
            best = k;
        }
        k = k + 1;
    }
    best
}

/// Counts the transactions needed to pay `n` workers with at most `m` outputs each.
pub fn batch_count(n: usize, m: usize) -> (r: usize)
    ensures
        r == batches(n as nat, m as nat),
{
    if m == 0 {
        return 0;
    }
    let mut rem: usize = n;
    let mut cnt: usize = 0;
    while rem > 0
        invariant
            m > 0,
            rem <= n,
            cnt + rem <= n,
            cnt + batches(rem as nat, m as nat) == batches(n as nat, m as nat),
        decreases rem,
    {
        if rem <= m {
            rem = 0;
        } else {
            rem = rem - m;
        }
        cnt = cnt + 1;
    }
    cnt
}

proof fn lemma_sum_prefix_le(s: Seq<u64>, j: int)
    requires
        0 <= j <= s.len(),
    ensures
        sum(s.subrange(0, j)) <= sum(s),
        sum(s.subrange(0, j)) >= 0,
    decreases s.len() - j,
{
    lemma_sum_nonneg(s.subrange(0, j));
    if j < s.len() {
        lemma_sum_prefix_le(s, j + 1);
        assert(s.subrange(0, j + 1).drop_last() =~= s.subrange(0, j));
    } else {
        assert(s.subrange(0, j) =~= s);
    }
}

proof fn lemma_batches_bounds(n: nat, m: nat)
    requires
        m > 0,
    ensures
        batches(n, m) <= n,
        n > 0 ==> batches(n, m) >= 1,
    decreases n,
{
    if n > m {
        lemma_batches_bounds((n - m) as nat, m);
    }
}

/// Adds up the capacity of a list of units.
pub fn total_capacity(units: &Vec<u64>) -> (r: u64)
    requires
        sum(units@) <= u64::MAX,
    ensures
        r == sum(units@),
{
    let mut acc: u64 = 0;
    let mut k: usize = 0;
    while k < units.len()
        invariant
            k <= units@.len(),
            acc == sum(units@.subrange(0, k as int)),
            sum(units@) <= u64::MAX,
        decreases units@.len() - k,
    {
        proof {
            assert(units@.subrange(0, k + 1).drop_last() =~= units@.subrange(0, k as int));
            lemma_sum_prefix_le(units@, k + 1);
        }
        acc = acc + units[k];
        k = k + 1;
    }
    proof {
        assert(units@.subrange(0, k as int) =~= units@);
    }
    acc
}

/// Plans a dispatch: `n_workers` workers each receive `target`, in transactions of at
/// most `max_outputs` outputs, each paying `fee`. Each transaction takes the root's
/// largest units until it can pay its outputs and fee, besides the change of the
/// transaction before it, and returns what is over to the root.
#[verifier::rlimit(50)]
pub fn plan_dispatch(
    root_units: &Vec<u64>,
    n_workers: usize,
    target: u64,
    max_outputs: usize,
    fee: u64,
) -> (r: Result<DispatchPlan, AllocError>)
    requires
        sum(root_units@) <= u64::MAX,
    ensures
        r == Err::<DispatchPlan, AllocError>(AllocError::ZeroLimit) <==> max_outputs == 0,
        r == Err::<DispatchPlan, AllocError>(AllocError::InsufficientCapacity) <==> (max_outputs
            > 0 && sum(root_units@) < dispatch_cost(
            n_workers as nat,
            target,
            max_outputs as nat,
            fee,
        )),
        r is Ok ==> is_dispatch(
            root_units@,
            n_workers as nat,
            target,
            max_outputs as nat,
            fee,
            r->Ok_0,
        ),
        r is Ok ==> largest_first(r->Ok_0),
{
    if max_outputs == 0 {
        return Err(AllocError::ZeroLimit);
    }
    let nb = batch_count(n_workers, max_outputs);
    let total = total_capacity(root_units);
    proof {
        lemma_batches_bounds(n_workers as nat, max_outputs as nat);
        assert((n_workers as int) * (target as int) <= 0xffff_ffff_ffff_ffff_ffff_ffff_ffff_ffffint)
            by (nonlinear_arith)
            requires
                n_workers as int <= 0xffff_ffff_ffff_ffffint,
                target <= 0xffff_ffff_ffff_ffffu64,
        ;
        assert((nb as int) * (fee as int) <= 0xffff_ffff_ffff_fffe_0000_0000_0000_0001int)
            by (nonlinear_arith)
            requires
                nb as int <= 0xffff_ffff_ffff_ffffint,
                fee <= 0xffff_ffff_ffff_ffffu64,
        ;
    }
    let pay: u128 = n_workers as u128 * target as u128;
    if pay > total as u128 {
        proof {
            assert((nb as int) * (fee as int) >= 0) by (nonlinear_arith);
        }
        return Err(AllocError::InsufficientCapacity);
    }
    let cost: u128 = pay + nb as u128 * fee as u128;
    if cost > total as u128 {
        return Err(AllocError::InsufficientCapacity);
    }
    let mut remaining: Vec<u64> = root_units.clone();
    assert(remaining@ =~= root_units@);
    assert(remaining@.to_multiset().add(spent_of(Seq::<Transfer>::empty())) =~= root_units@.to_multiset());
    let mut transfers: Vec<Transfer> = Vec::new();
    let mut carry: u64 = 0;
    let mut start: usize = 0;
    while start < n_workers
        invariant
            max_outputs > 0,
            start <= n_workers,
            nb == batches(n_workers as nat, max_outputs as nat),
            transfers@.len() + batches((n_workers - start) as nat, max_outputs as nat) == nb,
            total == sum(root_units@),
            total <= u64::MAX,
            (n_workers as int) * (target as int) + (nb as int) * (fee as int) <= total,
            carry == carried_into(transfers@, transfers@.len() as int),
            carry + sum(remaining@) == total - (start as int) * (target as int) - (
            transfers@.len() as int) * (fee as int),
            transfers@.len() == 0 ==> start == 0,
            root_units@.to_multiset() == remaining@.to_multiset().add(spent_of(transfers@)),
            forall|i: int, j: int, k: int|
                0 <= i < transfers@.len() && 0 <= j < transfers@[i].inputs@.len() && 0 <= k
                    < remaining@.len() ==> #[trigger] transfers@[i].inputs@[j]
                    >= #[trigger] remaining@[k],
            transfers@.len() > 0 ==> transfers@.last().first_worker + transfers@.last().n_workers
                == start,
            forall|i: int|
                #![trigger transfers@[i]]
                0 <= i < transfers@.len() ==> {
                    &&& transfers@[i].first_worker == (if i == 0 {
                        0
                    } else {
                        transfers@[i - 1].first_worker + transfers@[i - 1].n_workers
                    })
                    &&& transfers@[i].n_workers == (if n_workers - transfers@[i].first_worker
                        <= max_outputs {
                        n_workers - transfers@[i].first_worker
                    } else {
                        max_outputs as int
                    })
                    &&& transfers@[i].n_workers > 0
                    &&& transfers@[i].per_worker == target
                    &&& carried_into(transfers@, i) + sum(transfers@[i].inputs@)
                        == transfers@[i].n_workers * target + fee + transfers@[i].change
                    &&& transfers@[i].inputs@.len() > 0 ==> carried_into(transfers@, i) + sum(
                        transfers@[i].inputs@.drop_last(),
                    ) < transfers@[i].n_workers * target + fee
                },
        decreases n_workers - start,
    {
        let k: usize = if n_workers - start <= max_outputs {
            n_workers - start
        } else {
            max_outputs
        };
        let ghost left: int = total - (start as int) * (target as int) - (transfers@.len() as int)
            * (fee as int);
        proof {
            lemma_batches_bounds((n_workers - start) as nat, max_outputs as nat);
            assert(batches((n_workers - start) as nat, max_outputs as nat) == (if n_workers - start
                <= max_outputs {
                1
            } else {
                1 + batches((n_workers - start - max_outputs) as nat, max_outputs as nat)
            }));
            let rest = (nb - transfers@.len()) as int;
            assert(rest >= 1);
            assert((n_workers as int) * (target as int) == (start as int) * (target as int) + ((
            n_workers - start) as int) * (target as int)) by (nonlinear_arith);
            assert((nb as int) * (fee as int) == (transfers@.len() as int) * (fee as int) + rest * (
            fee as int)) by (nonlinear_arith)
                requires
                    rest == nb - transfers@.len(),
            ;
            assert((k as int) * (target as int) <= ((n_workers - start) as int) * (target as int))
                by (nonlinear_arith)
                requires
                    k <= n_workers - start,
            ;
            assert(rest * (fee as int) >= fee) by (nonlinear_arith)
                requires
                    rest >= 1,
            ;
            assert(left >= (k as int) * (target as int) + fee);
        }
        let need: u64 = k as u64 * target + fee;
        let mut inputs: Vec<u64> = Vec::new();
        let mut have: u64 = carry;
        proof {
            broadcast use vstd::seq_lib::group_to_multiset_ensures;

            assert(inputs@.to_multiset() =~= Multiset::empty()) by {
                assert(inputs@.to_multiset().len() == 0);
            }
            assert(remaining@.to_multiset().add(spent_of(transfers@)).add(inputs@.to_multiset())
                =~= remaining@.to_multiset().add(spent_of(transfers@)));
        }
        while have < need
            invariant
                have == carry + sum(inputs@),
                root_units@.to_multiset() == remaining@.to_multiset().add(spent_of(transfers@)).add(
                    inputs@.to_multiset(),
                ),
                inputs@.len() > 0 ==> carry + sum(inputs@.drop_last()) < need,
                forall|i: int, j: int, k: int|
                    0 <= i < transfers@.len() && 0 <= j < transfers@[i].inputs@.len() && 0 <= k
                        < remaining@.len() ==> #[trigger] transfers@[i].inputs@[j]
                        >= #[trigger] remaining@[k],
                forall|j: int, k: int|
                    0 <= j < inputs@.len() && 0 <= k < remaining@.len() ==> #[trigger] inputs@[j]
                        >= #[trigger] remaining@[k],
                have + sum(remaining@) == left,
                left >= need,
                left <= u64::MAX,
            decreases remaining@.len(),
        {
            proof {
                lemma_sum_nonneg(remaining@);
            }
            let j = index_of_largest(&remaining);
            proof {
                lemma_sum_remove(remaining@, j as int);
                lemma_sum_push(inputs@, remaining@[j as int]);
                lemma_sum_nonneg(remaining@.remove(j as int));
            }
            let ghost old_rem = remaining@;
            let u = remaining.remove(j);
            proof {
                assert forall|k: int| 0 <= k < remaining@.len() implies #[trigger] remaining@[k]
                    == old_rem[if k < j {
                    k
                } else {
                    k + 1
                }] by {}
            }
            let ghost old_inputs = inputs@;
            have = have + u;
            inputs.push(u);
            assert(inputs@.drop_last() =~= old_inputs);
            proof {
                broadcast use vstd::seq_lib::group_to_multiset_ensures;

                assert(remaining@.to_multiset() == old_rem.to_multiset().remove(u));
                assert(inputs@.to_multiset() == old_inputs.to_multiset().insert(u));
                assert(old_rem.to_multiset().count(u) > 0) by {
                    assert(old_rem.contains(u));
                }
                assert(remaining@.to_multiset().add(spent_of(transfers@)).add(inputs@.to_multiset())
                    =~= old_rem.to_multiset().add(spent_of(transfers@)).add(
                    old_inputs.to_multiset(),
                ));
            }
            proof {
                assert forall|jj: int, k: int|
                    0 <= jj < inputs@.len() && 0 <= k < remaining@.len() implies #[trigger] inputs@[jj]
                    >= #[trigger] remaining@[k] by {
                    let kk = if k < j {
                        k
                    } else {
                        k + 1
                    };
                    assert(remaining@[k] == old_rem[kk]);
                }
                assert forall|i: int, jj: int, k: int|
                    0 <= i < transfers@.len() && 0 <= jj < transfers@[i].inputs@.len() && 0 <= k
                        < remaining@.len() implies #[trigger] transfers@[i].inputs@[jj]
                    >= #[trigger] remaining@[k] by {
                    let kk = if k < j {
                        k
                    } else {
                        k + 1
                    };
                    assert(remaining@[k] == old_rem[kk]);
                }
            }
        }
        let change = have - need;
        let ghost before = transfers@;
        transfers.push(
            Transfer { inputs, first_worker: start, n_workers: k, per_worker: target, change },
        );
        proof {
            assert(transfers@.len() == before.len() + 1);
            assert(transfers@.drop_last() =~= before);
            assert(root_units@.to_multiset() == remaining@.to_multiset().add(spent_of(transfers@)))
                by {
                assert(spent_of(transfers@) == spent_of(before).add(
                    transfers@.last().inputs@.to_multiset(),
                ));
                assert(remaining@.to_multiset().add(spent_of(before)).add(
                    transfers@.last().inputs@.to_multiset(),
                ) =~= remaining@.to_multiset().add(spent_of(transfers@)));
            }
            assert forall|i: int| 0 <= i < before.len() implies transfers@[i] == before[i] by {}
            assert(carried_into(transfers@, before.len() as int) == carry);
            assert(((start + k) as int) * (target as int) == (start as int) * (target as int) + (
            k as int) * (target as int)) by (nonlinear_arith);
            assert(((before.len() + 1) as int) * (fee as int) == (before.len() as int) * (
            fee as int) + fee) by (nonlinear_arith);
        }
        carry = change;
        start = start + k;
    }
    Ok(DispatchPlan { transfers, untouched: remaining })
}

/// One collect transaction: it spends `inputs`, all of them units of `worker`, and
/// returns `returned` to the root.
#[derive(Clone, Debug)]
pub struct Sweep {
    pub worker: usize,
    pub inputs: Vec<u64>,
    pub returned: u64,
}

/// A sweep as contracts see it: the worker, the capacities spent and the amount returned.
pub open spec fn sweep_view(s: Sweep) -> (int, Seq<u64>, int) {
    (s.worker as int, s.inputs@, s.returned as int)
}

/// The sweeps of one worker's units: consecutive groups of at most `m` units, each
/// returning its total less the fee. A group that cannot pay more than the fee is left
/// alone, so a worker with nothing to spend gives no transaction.
pub open spec fn worker_sweeps(w: int, s: Seq<u64>, m: nat, fee: u64) -> Seq<(int, Seq<u64>, int)>
    decreases s.len(),
{
    if s.len() == 0 || m == 0 {
        Seq::empty()
    } else {
        let k: int = if s.len() <= m {
            s.len() as int
        } else {
            m as int
        };
        let c = s.subrange(0, k);
        let rest = worker_sweeps(w, s.subrange(k, s.len() as int), m, fee);
        if sum(c) > fee {
            seq![(w, c, sum(c) - fee)] + rest
        } else {
            rest
        }
    }
}

/// The sweeps of all workers, worker by worker.
pub open spec fn collect_sweeps(units: Seq<Seq<u64>>, m: nat, fee: u64) -> Seq<(int, Seq<u64>, int)>
    decreases units.len(),
{
    if units.len() == 0 {
        Seq::empty()
    } else {
        collect_sweeps(units.drop_last(), m, fee) + worker_sweeps(
            units.len() - 1,
            units.last(),
            m,
            fee,
        )
    }
}

/// What a list of sweeps returns to the root in all.
pub open spec fn returned_total(s: Seq<(int, Seq<u64>, int)>) -> int
    decreases s.len(),
{
    if s.len() == 0 {
        0
    } else {
        returned_total(s.drop_last()) + s.last().2
    }
}

proof fn lemma_sum_concat(a: Seq<u64>, b: Seq<u64>)
    ensures
        sum(a + b) == sum(a) + sum(b),
    decreases b.len(),
{
    if b.len() > 0 {
        lemma_sum_concat(a, b.drop_last());
        assert((a + b).drop_last() =~= a + b.drop_last());
    } else {
        assert(a + b =~= a);
    }
}

proof fn lemma_sum_slice_le(s: Seq<u64>, i: int, j: int)
    requires
        0 <= i <= j <= s.len(),
    ensures
        sum(s.subrange(i, j)) <= sum(s),
{
    lemma_sum_concat(s.subrange(0, i), s.subrange(i, j));
    lemma_sum_concat(s.subrange(0, i) + s.subrange(i, j), s.subrange(j, s.len() as int));
    assert(s.subrange(0, i) + s.subrange(i, j) + s.subrange(j, s.len() as int) =~= s);
    lemma_sum_nonneg(s.subrange(0, i));
    lemma_sum_nonneg(s.subrange(j, s.len() as int));
}

fn copy_slice(v: &Vec<u64>, from: usize, to: usize) -> (r: Vec<u64>)
    requires
        from <= to <= v@.len(),
    ensures
        r@ == v@.subrange(from as int, to as int),
{
    let mut r: Vec<u64> = Vec::new();
    let mut k: usize = from;
    while k < to
        invariant
            from <= k <= to <= v@.len(),
            r@ =~= v@.subrange(from as int, k as int),
        decreases to - k,
    {
        r.push(v[k]);
        k = k + 1;
    }
    r
}

/// Plans a collect: each worker's units go back to the root in transactions of at most
/// `max_inputs` inputs, each returning its inputs less `fee`.
pub fn plan_collect(worker_units: &Vec<Vec<u64>>, max_inputs: usize, fee: u64) -> (r: Result<
    Vec<Sweep>,
    AllocError,
>)
    requires
        forall|w: int| 0 <= w < worker_units@.len() ==> sum(#[trigger] worker_units@[w]@) <= u64::MAX,
    ensures
        r is Err <==> max_inputs == 0,
        r is Err ==> r->Err_0 == AllocError::ZeroLimit,
        r is Ok ==> r->Ok_0@.map_values(|s: Sweep| sweep_view(s)) == collect_sweeps(
            worker_units@.map_values(|v: Vec<u64>| v@),
            max_inputs as nat,
            fee,
        ),
{
    if max_inputs == 0 {
        return Err(AllocError::ZeroLimit);
    }
    let ghost all = worker_units@.map_values(|v: Vec<u64>| v@);
    let mut out: Vec<Sweep> = Vec::new();
    let mut w: usize = 0;
    while w < worker_units.len()
        invariant
            max_inputs > 0,
            w <= worker_units@.len(),
            all == worker_units@.map_values(|v: Vec<u64>| v@),
            forall|x: int| 0 <= x < worker_units@.len() ==> sum(#[trigger] worker_units@[x]@) <= u64::MAX,
            out@.map_values(|s: Sweep| sweep_view(s)) == collect_sweeps(
                all.subrange(0, w as int),
                max_inputs as nat,
                fee,
            ),
        decreases worker_units@.len() - w,
    {
        let units = &worker_units[w];
        let ghost s = units@;
        let ghost base = out@.map_values(|s: Sweep| sweep_view(s));
        let mut pos: usize = 0;
        proof {
            assert(s.subrange(0, s.len() as int) =~= s);
        }
        while pos < units.len()
            invariant
                max_inputs > 0,
                pos <= units@.len(),
                s == units@,
                sum(s) <= u64::MAX,
                out@.map_values(|x: Sweep| sweep_view(x)) + worker_sweeps(
                    w as int,
                    s.subrange(pos as int, s.len() as int),
                    max_inputs as nat,
                    fee,
                ) == base + worker_sweeps(w as int, s, max_inputs as nat, fee),
            decreases units@.len() - pos,
        {
            let k: usize = if units.len() - pos <= max_inputs {
                units.len() - pos
            } else {
                max_inputs
            };
            let chunk = copy_slice(units, pos, pos + k);
            proof {
                lemma_sum_slice_le(s, pos as int, pos + k);
                let t = s.subrange(pos as int, s.len() as int);
                assert(t.subrange(0, k as int) =~= chunk@);
                assert(t.subrange(k as int, t.len() as int) =~= s.subrange(
                    pos + k,
                    s.len() as int,
                ));
            }
            let total = total_capacity(&chunk);
            let ghost before = out@;
            if total > fee {
                out.push(Sweep { worker: w, inputs: chunk, returned: total - fee });
                proof {
                    assert(out@.map_values(|x: Sweep| sweep_view(x)) =~= before.map_values(
                        |x: Sweep| sweep_view(x),
                    ).push((w as int, s.subrange(pos as int, pos + k), total - fee)));
                    let rest = worker_sweeps(
                        w as int,
                        s.subrange(pos + k, s.len() as int),
                        max_inputs as nat,
                        fee,
                    );
                    assert(before.map_values(|x: Sweep| sweep_view(x)).push(
                        (w as int, s.subrange(pos as int, pos + k), total - fee),
                    ) + rest =~= before.map_values(|x: Sweep| sweep_view(x)) + (seq![
                        (w as int, s.subrange(pos as int, pos + k), total - fee),
                    ] + rest));
                }
            }
            pos = pos + k;
        }
        proof {
            assert(s.subrange(s.len() as int, s.len() as int) =~= Seq::<u64>::empty());
            assert(out@.map_values(|x: Sweep| sweep_view(x)) + Seq::empty() =~= out@.map_values(
                |x: Sweep| sweep_view(x),
            ));
            assert(all.subrange(0, w + 1).drop_last() =~= all.subrange(0, w as int));
            assert(all.subrange(0, w + 1).last() == s);
        }
        w = w + 1;
    }
    proof {
        assert(all.subrange(0, w as int) =~= all);
    }
    Ok(out)
}

/// The transaction of a dispatch that pays worker `w`.
pub open spec fn pays(t: Seq<Transfer>, i: int, w: int) -> bool {
    0 <= i < t.len() && t[i].first_worker <= w < t[i].first_worker + t[i].n_workers
}

/// Some transaction of a dispatch pays worker `w` at least `target`.
pub open spec fn worker_paid(t: Seq<Transfer>, w: int, target: u64) -> bool {
    exists|i: int| pays(t, i, w) && t[i].per_worker >= target
}

proof fn lemma_cover_from(t: Seq<Transfer>, n: nat, j: int, w: int)
    requires
        forall|i: int|
            #![trigger t[i]]
            0 < i < t.len() ==> t[i].first_worker == t[i - 1].first_worker + t[i - 1].n_workers,
        t.len() > 0 ==> t.last().first_worker + t.last().n_workers == n,
        0 <= j < t.len(),
        t[j].first_worker <= w < n,
    ensures
        exists|i: int| pays(t, i, w),
    decreases t.len() - j,
{
    if w < t[j].first_worker + t[j].n_workers {
        assert(pays(t, j, w));
    } else {
        assert(t[j + 1].first_worker == t[j].first_worker + t[j].n_workers);
        lemma_cover_from(t, n, j + 1, w);
    }
}

/// After a dispatch of `target` to each of `n` workers, every worker has been paid
/// `target` by one of its transactions, and the root holds at least `n * target` less
/// than before. Every dispatch plan has a positive output ceiling: `plan_dispatch`
/// refuses a ceiling of zero, under which no worker could be paid.
pub proof fn lemma_dispatch_funds_every_worker(
    root_units: Seq<u64>,
    n: nat,
    target: u64,
    m: nat,
    fee: u64,
    p: DispatchPlan,
)
    requires
        is_dispatch(root_units, n, target, m, fee, p),
    ensures
        forall|w: int| 0 <= w < n ==> #[trigger] worker_paid(p.transfers@, w, target),
        root_after(p) <= sum(root_units) - n * target,
{
    assert forall|w: int| 0 <= w < n implies #[trigger] worker_paid(p.transfers@, w, target) by {
        let t = p.transfers@;
        lemma_batches_bounds(n, m);
        assert forall|i: int|
            #![trigger t[i]]
            0 < i < t.len() implies t[i].first_worker == t[i - 1].first_worker
            + t[i - 1].n_workers by {}
        assert(t[0].first_worker == 0);
        lemma_cover_from(t, n, 0, w);
        let i = choose|i: int| pays(p.transfers@, i, w);
        assert(p.transfers@[i].per_worker == target);
    }
    assert(batches(n, m) * fee >= 0) by (nonlinear_arith);
}

/// What the workers hold right after a dispatch from empty accounts: one unit of `target`
/// each.
pub open spec fn dispatched_holdings(n: nat, target: u64) -> Seq<Seq<u64>> {
    Seq::new(n, |w: int| seq![target])
}

proof fn lemma_collect_single_units(n: nat, target: u64, m: nat, fee: u64)
    requires
        m > 0,
        target > fee,
    ensures
        returned_total(collect_sweeps(dispatched_holdings(n, target), m, fee)) == n * (target
            - fee),
    decreases n,
{
    let h = dispatched_holdings(n, target);
    if n > 0 {
        lemma_collect_single_units((n - 1) as nat, target, m, fee);
        assert(h.drop_last() =~= dispatched_holdings((n - 1) as nat, target));
        let one = seq![target];
        assert(one.subrange(0, 1) =~= one);
        assert(one.drop_last() =~= Seq::<u64>::empty());
        assert(sum(one) == sum(one.drop_last()) + one.last());
        assert(sum(Seq::<u64>::empty()) == 0);
        assert(sum(one) == target);
        assert(one.subrange(1, 1) =~= Seq::<u64>::empty());
        assert(worker_sweeps(n - 1, Seq::<u64>::empty(), m, fee) =~= Seq::empty());
        let ws = worker_sweeps(n - 1, one, m, fee);
        assert(ws == seq![(n - 1, one, target - fee)] + Seq::<(int, Seq<u64>, int)>::empty());
        let prev = collect_sweeps(dispatched_holdings((n - 1) as nat, target), m, fee);
        let all = prev + ws;
        assert(h.last() == one);
        assert(collect_sweeps(h, m, fee) == all);
        assert(all.drop_last() =~= prev);
        assert(all.last() == (n - 1, one, target - fee));
        assert(returned_total(all) == returned_total(prev) + (target - fee));
        assert(n * (target - fee) == (n - 1) * (target - fee) + (target - fee)) by (nonlinear_arith);
    } else {
        assert(collect_sweeps(h, m, fee) == Seq::<(int, Seq<u64>, int)>::empty());
        assert(n * (target - fee) == 0);
    }
}

/// Collecting right after a dispatch to empty workers brings the root back to its
/// balance before the dispatch, less one fee for each transaction of the two: one per
/// dispatch batch and one per worker swept.
pub proof fn lemma_collect_after_dispatch(
    root_units: Seq<u64>,
    n: nat,
    target: u64,
    max_outputs: nat,
    max_inputs: nat,
    fee: u64,
    p: DispatchPlan,
)
    requires
        is_dispatch(root_units, n, target, max_outputs, fee, p),
        max_inputs > 0,
        target > fee,
    ensures
        root_after(p) + returned_total(
            collect_sweeps(dispatched_holdings(n, target), max_inputs, fee),
        ) == sum(root_units) - (batches(n, max_outputs) + n) * fee,
        collect_sweeps(dispatched_holdings(n, target), max_inputs, fee).len() == n,
{
    lemma_collect_single_units(n, target, max_inputs, fee);
    lemma_collect_count(n, target, max_inputs, fee);
    assert(n * (target - fee) + (batches(n, max_outputs) + n) * fee == n * target + batches(
        n,
        max_outputs,
    ) * fee) by (nonlinear_arith);
}

proof fn lemma_collect_count(n: nat, target: u64, m: nat, fee: u64)
    requires
        m > 0,
        target > fee,
    ensures
        collect_sweeps(dispatched_holdings(n, target), m, fee).len() == n,
    decreases n,
{
    if n > 0 {
        lemma_collect_count((n - 1) as nat, target, m, fee);
        let h = dispatched_holdings(n, target);
        assert(h.drop_last() =~= dispatched_holdings((n - 1) as nat, target));
        let one = seq![target];
        assert(one.subrange(0, 1) =~= one);
        assert(one.drop_last() =~= Seq::<u64>::empty());
        assert(sum(one) == sum(one.drop_last()) + one.last());
        assert(sum(Seq::<u64>::empty()) == 0);
        assert(one.subrange(1, 1) =~= Seq::<u64>::empty());
        assert(worker_sweeps(n - 1, Seq::<u64>::empty(), m, fee) =~= Seq::empty());
        assert(worker_sweeps(n - 1, one, m, fee).len() == 1);
    }
}

} // verus!
