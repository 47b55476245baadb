//! The chunked greedy allocator and the withdraw/deposit reordering.
//!
//! The increment `A - A₀` is split into `c` chunks (the last chunk absorbs
//! the rounding remainder), and each chunk is committed to the silo whose
//! resulting annualized rate is strictly the greatest among the silos whose
//! cap admits it; ties keep the earliest index.  The raw allocation vector is
//! then reordered so that withdraws come first in input order, followed by
//! deposits in reverse input order.
//!
//! The spec functions mirror the fault model of the rate kernel: `None`
//! stands for the fatal faults — an arithmetic fault, or a chunk for which no
//! silo is eligible.

use vstd::prelude::*;
use vstd::pervasive::VecAdditionalExecFns;
use vstd::arithmetic::div_mod::{lemma_fundamental_div_mod, lemma_mod_bound};
use crate::num::{pow2_64, pow2_256, u256_checked_add, u256_checked_div, u256_checked_mul, u256_checked_sub,
    SignedAmount, Uint256};
use crate::params::{position_views, silo_views, strategy_views, Position, PositionV, SiloRateParams,
    SiloRateParamsV, StrategyParams, StrategyParamsV};
use crate::rate::{apr_after_debt_change, apr_ok, apr_value};

verus! {

/// The debt column of a position sequence.
pub open spec fn debts_of(ps: Seq<PositionV>) -> Seq<nat> {
    Seq::new(ps.len(), |i: int| ps[i].debt)
}

/// The values of a sequence of 256-bit words.
pub open spec fn debt_vals(s: Seq<Uint256>) -> Seq<nat> {
    Seq::new(s.len(), |i: int| s[i].val())
}

/// The positions of `initial` with the debt column replaced by `debts`.
pub open spec fn with_debts(initial: Seq<PositionV>, debts: Seq<nat>) -> Seq<PositionV> {
    Seq::new(initial.len(), |i: int| PositionV { strategy: initial[i].strategy, debt: debts[i] })
}

/// One scan over the silos from index `j` on, carrying the best annualized
/// rate seen so far and its index.  `None` is a fault: an overflowing cap
/// check, a faulting rate computation, or a rate that does not fit 64 bits.
pub open spec fn scan_from(
    unit: nat,
    debts: Seq<nat>,
    silos: Seq<SiloRateParamsV>,
    strats: Seq<StrategyParamsV>,
    j: int,
    best_apr: nat,
    best_idx: int,
) -> Option<(nat, int)>
    decreases debts.len() - j,
{
    if j < 0 || j >= debts.len() {
        Some((best_apr, best_idx))
    } else if debts[j] + unit >= pow2_256() {
        None
    } else if debts[j] + unit > strats[j].max_debt {
        scan_from(unit, debts, silos, strats, j + 1, best_apr, best_idx)
    } else {
        let d = debts[j] + unit - strats[j].current_debt;
        if !apr_ok(silos[j], d) {
            None
        } else {
            let a = apr_value(silos[j], d);
            if a >= pow2_64() {
                None
            } else if best_apr >= a {
                scan_from(unit, debts, silos, strats, j + 1, best_apr, best_idx)
            } else {
                scan_from(unit, debts, silos, strats, j + 1, a as nat, j)
            }
        }
    }
}

/// One chunk: scan for the best silo and commit `unit` to it.  A scan fault
/// or a best rate of zero (no eligible silo) is fatal.
pub open spec fn chunk_result(
    unit: nat,
    debts: Seq<nat>,
    silos: Seq<SiloRateParamsV>,
    strats: Seq<StrategyParamsV>,
) -> Option<Seq<nat>> {
    match scan_from(unit, debts, silos, strats, 0, 0, 0) {
        None => None,
        Some(best) => if best.0 == 0 {
            None
        } else {
            Some(debts.update(best.1, (debts[best.1] + unit) as nat))
        },
    }
}

/// `k` remaining chunks: all but the last use `unit`, the last uses
/// `last_unit`.
pub open spec fn run_chunks(
    unit: nat,
    last_unit: nat,
    k: nat,
    debts: Seq<nat>,
    silos: Seq<SiloRateParamsV>,
    strats: Seq<StrategyParamsV>,
) -> Option<Seq<nat>>
    decreases k,
{
    if k == 0 {
        Some(debts)
    } else {
        let u = if k == 1 {
            last_unit
        } else {
            unit
        };
        match chunk_result(u, debts, silos, strats) {
            None => None,
            Some(d) => run_chunks(unit, last_unit, (k - 1) as nat, d, silos, strats),
        }
    }
}

/// A silo whose booked debt exceeds its newly allocated debt is a withdraw;
/// every other silo (equality included) is a deposit.
pub open spec fn is_withdraw(p: PositionV, s: StrategyParamsV) -> bool {
    s.current_debt > p.debt
}

/// The withdraws among the first `k` positions, in input order.
pub open spec fn withdraws_prefix(ps: Seq<PositionV>, strats: Seq<StrategyParamsV>, k: int) -> Seq<PositionV>
    decreases k,
{
    if k <= 0 {
        Seq::empty()
    } else if is_withdraw(ps[k - 1], strats[k - 1]) {
        withdraws_prefix(ps, strats, k - 1).push(ps[k - 1])
    } else {
        withdraws_prefix(ps, strats, k - 1)
    }
}

/// The deposits among the first `k` positions, in input order.
pub open spec fn deposits_prefix(ps: Seq<PositionV>, strats: Seq<StrategyParamsV>, k: int) -> Seq<PositionV>
    decreases k,
{
    if k <= 0 {
        Seq::empty()
    } else if !is_withdraw(ps[k - 1], strats[k - 1]) {
        deposits_prefix(ps, strats, k - 1).push(ps[k - 1])
    } else {
        deposits_prefix(ps, strats, k - 1)
    }
}

/// The emitted order: withdraws in input order, then deposits reversed.
pub open spec fn reorder(ps: Seq<PositionV>, strats: Seq<StrategyParamsV>) -> Seq<PositionV> {
    withdraws_prefix(ps, strats, ps.len() as int) + deposits_prefix(ps, strats, ps.len() as int).reverse()
}

/// The whole allocation: split `a - a0` into `c` chunks, place each chunk
/// greedily, then reorder.  `None` on any fatal fault: `a < a0`, `c == 0`, an
/// arithmetic fault during a scan, or a chunk with no eligible silo.  A zero
/// chunk size short-circuits to an empty plan.
pub open spec fn spec_optimal_allocation(
    c: nat,
    a0: nat,
    a: nat,
    initial: Seq<PositionV>,
    silos: Seq<SiloRateParamsV>,
    strats: Seq<StrategyParamsV>,
) -> Option<Seq<PositionV>> {
    if a < a0 || c == 0 {
        None
    } else {
        let unit = ((a - a0) as nat) / c;
        if unit == 0 {
            Some(Seq::empty())
        } else {
            let last_unit = ((a - a0) - unit * (c - 1)) as nat;
            match run_chunks(unit, last_unit, c, debts_of(initial), silos, strats) {
                None => None,
                Some(d) => Some(reorder(with_debts(initial, d), strats)),
            }
        }
    }
}

/// Splits the raw allocation vector into withdraws first (input order), then
/// deposits (reverse input order).
pub fn reorder_positions(ps: &Vec<Position>, strategy_datas: &Vec<StrategyParams>) -> (r: Vec<Position>)
    requires
        strategy_datas@.len() >= ps@.len(),
    ensures
        position_views(r@) == reorder(position_views(ps@), strategy_views(strategy_datas@)),
{
    let ghost psv = position_views(ps@);
    let ghost sv = strategy_views(strategy_datas@);
    let n = ps.len();
    let mut withdraws: Vec<Position> = Vec::new();
    let mut deposits: Vec<Position> = Vec::new();
    let mut i: usize = 0;
    while i < n
        invariant
            i <= n,
            n == ps@.len(),
            strategy_datas@.len() >= n,
            psv == position_views(ps@),
            sv == strategy_views(strategy_datas@),
            position_views(withdraws@) == withdraws_prefix(psv, sv, i as int),
            position_views(deposits@) == deposits_prefix(psv, sv, i as int),
        decreases n - i,
    {
        let position = Position { strategy: ps[i].strategy, debt: ps[i].debt };
        if strategy_datas[i].current_debt.gt(&ps[i].debt) {
            withdraws.push(position);
            assert(position_views(withdraws@) =~= withdraws_prefix(psv, sv, i + 1));
            assert(position_views(deposits@) =~= deposits_prefix(psv, sv, i + 1));
        } else {
            deposits.push(position);
            assert(position_views(withdraws@) =~= withdraws_prefix(psv, sv, i + 1));
            assert(position_views(deposits@) =~= deposits_prefix(psv, sv, i + 1));
        }
        i += 1;
    }
    let ghost wbase = position_views(withdraws@);
    let ghost dfull = position_views(deposits@);
    let dlen = deposits.len();
    let mut t: usize = 0;
    while t < dlen
        invariant
            t <= dlen,
            dlen == deposits@.len(),
            wbase == withdraws_prefix(psv, sv, psv.len() as int),
            dfull == position_views(deposits@),
            withdraws@.len() == wbase.len() + t,
            forall|k: int| 0 <= k < wbase.len() ==> position_views(withdraws@)[k] == wbase[k],
            forall|q: int| 0 <= q < t ==> position_views(withdraws@)[wbase.len() + q] == #[trigger] dfull[dlen - 1
                - q],
        decreases dlen - t,
    {
        let position = Position { strategy: deposits[dlen - 1 - t].strategy, debt: deposits[dlen - 1 - t].debt };
        let ghost prev = withdraws@;
        withdraws.push(position);
        proof {
            assert(forall|k: int| 0 <= k < prev.len() ==> withdraws@[k] == prev[k]);
            assert(position_views(withdraws@)[wbase.len() + t] == position@);
            assert(position@ == dfull[dlen - 1 - t]);
        }
        t += 1;
    }
    proof {
        assert(position_views(withdraws@) =~= wbase + dfull.reverse());
        assert(position_views(withdraws@) =~= reorder(psv, sv));
    }
    withdraws
}

/// One scan over all silos for the given chunk size: the best strictly
/// improving annualized rate and its index, as [`scan_from`] states; `None`
/// exactly on a scan fault.
#[verifier::loop_isolation(false)]
#[verifier::rlimit(100)]
fn scan_best(
    cur_unit: &Uint256,
    b: &Vec<Uint256>,
    sturdy_datas: &Vec<SiloRateParams>,
    strategy_datas: &Vec<StrategyParams>,
) -> (r: Option<(u64, usize)>)
    requires
        sturdy_datas@.len() >= b@.len(),
        strategy_datas@.len() >= b@.len(),
    ensures
        ({
            let s = scan_from(
                cur_unit.val(),
                debt_vals(b@),
                silo_views(sturdy_datas@),
                strategy_views(strategy_datas@),
                0,
                0,
                0,
            );
            &&& s is Some ==> (r matches Some(t) && t.0 as nat == s->Some_0.0 && t.1 as int == s->Some_0.1)
            &&& s is None ==> r is None
            &&& (r is Some && r->Some_0.0 > 0) ==> (r->Some_0.1 < b@.len() && debt_vals(b@)[r->Some_0.1 as int]
                + cur_unit.val() <= strategy_views(strategy_datas@)[r->Some_0.1 as int].max_debt)
        }),
{
    let ghost sv = silo_views(sturdy_datas@);
    let ghost tv = strategy_views(strategy_datas@);
    let ghost dsnap = debt_vals(b@);
    let ghost scan_full = scan_from(cur_unit.val(), dsnap, sv, tv, 0, 0, 0);
    let n = b.len();
    let mut max_apr: u64 = 0;
    let mut max_index: usize = 0;
    let mut j: usize = 0;
    while j < n
        invariant
            j <= n,
            scan_from(cur_unit.val(), dsnap, sv, tv, j as int, max_apr as nat, max_index as int) == scan_full,
            max_apr > 0 ==> max_index < j,
            max_apr > 0 ==> dsnap[max_index as int] + cur_unit.val() <= tv[max_index as int].max_debt,
        decreases n - j,
    {
        let nd = match u256_checked_add(&b[j], cur_unit) {
            Some(x) => x,
            None => { return None; },
        };
        if nd.gt(&strategy_datas[j].max_debt) {
            j += 1;
            continue;
        }
        let delta = SignedAmount::sub_of(&nd, &strategy_datas[j].current_debt);
        let apr_u = match apr_after_debt_change(&sturdy_datas[j], &delta) {
            Some(x) => x,
            None => { return None; },
        };
        let apr64 = match apr_u.to_u64() {
            Some(x) => x,
            None => { return None; },
        };
        if max_apr >= apr64 {
            j += 1;
        } else {
            max_apr = apr64;
            max_index = j;
            j += 1;
        }
    }
    Some((max_apr, max_index))
}

/// Distributes the increment `a - a0` over the silos in `c` greedy chunks
/// and returns the reordered plan; `None` exactly on the fatal faults of
/// [`spec_optimal_allocation`].
#[verifier::loop_isolation(false)]
#[verifier::rlimit(100)]
pub fn get_optimal_allocation(
    c: u64,
    total_initial_amount: &Uint256,
    total_available_amount: &Uint256,
    initial_datas: &Vec<Position>,
    sturdy_datas: &Vec<SiloRateParams>,
    strategy_datas: &Vec<StrategyParams>,
) -> (r: Option<Vec<Position>>)
    requires
        sturdy_datas@.len() >= initial_datas@.len(),
        strategy_datas@.len() >= initial_datas@.len(),
    ensures
        ({
            let s = spec_optimal_allocation(
                c as nat,
                total_initial_amount.val(),
                total_available_amount.val(),
                position_views(initial_datas@),
                silo_views(sturdy_datas@),
                strategy_views(strategy_datas@),
            );
            &&& s is Some ==> (r matches Some(v) && position_views(v@) == s->Some_0)
            &&& s is None ==> r is None
        }),
{
    let ghost psv = position_views(initial_datas@);
    let ghost sv = silo_views(sturdy_datas@);
    let ghost tv = strategy_views(strategy_datas@);
    let ghost a0 = total_initial_amount.val();
    let ghost a = total_available_amount.val();

    let avail = match u256_checked_sub(total_available_amount, total_initial_amount) {
        Some(x) => x,
        None => { return None; },
    };
    let cw = Uint256::from_u64(c);
    let unit = match u256_checked_div(&avail, &cw) {
        Some(x) => x,
        None => { return None; },
    };
    if unit.is_zero() {
        let empty_out: Vec<Position> = Vec::new();
        proof {
            assert(position_views(empty_out@) =~= Seq::<PositionV>::empty());
        }
        return Some(empty_out);
    }
    proof {
        lemma_fundamental_div_mod(avail.val() as int, c as int);
        lemma_mod_bound(avail.val() as int, c as int);
        let u_ = unit.val() as int;
        let c_ = c as int;
        assert(u_ * (c_ - 1) == c_ * u_ - u_) by (nonlinear_arith);
        crate::num::lemma_val_bound(avail);
        assert(unit.val() * ((c - 1) as int) <= avail.val());
    }
    let cm1 = Uint256::from_u64(c - 1);
    let mulu = match u256_checked_mul(&unit, &cm1) {
        Some(x) => x,
        None => { return None; },
    };
    let last_unit = match u256_checked_sub(&avail, &mulu) {
        Some(x) => x,
        None => { return None; },
    };

    let n = initial_datas.len();
    let mut b: Vec<Uint256> = Vec::new();
    let mut k0: usize = 0;
    while k0 < n
        invariant
            k0 <= n,
            b@.len() == k0,
            forall|q: int| 0 <= q < k0 ==> b@[q] == initial_datas@[q].debt,
        decreases n - k0,
    {
        b.push(initial_datas[k0].debt);
        k0 += 1;
    }
    proof {
        assert(debt_vals(b@) =~= debts_of(psv));
    }

    let ghost uval = unit.val();
    let ghost luval = last_unit.val();
    let mut i: u64 = 0;
    while i < c
        invariant
            i <= c,
            b@.len() == n,
            run_chunks(uval, luval, (c - i) as nat, debt_vals(b@), sv, tv) == run_chunks(
                uval,
                luval,
                c as nat,
                debts_of(psv),
                sv,
                tv,
            ),
        decreases c - i,
    {
        let cur_unit = if i == c - 1 {
            last_unit
        } else {
            unit
        };
        let ghost dsnap = debt_vals(b@);
        proof {
            assert(cur_unit.val() == (if (c - i) as nat == 1 { luval } else { uval }));
        }
        let best = match scan_best(&cur_unit, &b, sturdy_datas, strategy_datas) {
            Some(t) => t,
            None => { return None; },
        };
        let (max_apr, max_index) = best;
        if max_apr == 0 {
            return None;
        }
        let nd = match u256_checked_add(&b[max_index], &cur_unit) {
            Some(x) => x,
            None => {
                proof {
                    crate::num::lemma_val_bound(strategy_datas@[max_index as int].max_debt);
                }
                return None;
            },
        };
        b.set(max_index, nd);
        proof {
            assert(debt_vals(b@) =~= dsnap.update(
                max_index as int,
                (dsnap[max_index as int] + cur_unit.val()) as nat,
            ));
            assert(chunk_result(cur_unit.val(), dsnap, sv, tv) == Some(debt_vals(b@)));
        }
        i += 1;
    }

    let mut out: Vec<Position> = Vec::new();
    let mut k1: usize = 0;
    while k1 < n
        invariant
            k1 <= n,
            out@.len() == k1,
            forall|q: int|
                0 <= q < k1 ==> (#[trigger] out@[q]).strategy == initial_datas@[q].strategy && out@[q].debt
                    == b@[q],
        decreases n - k1,
    {
        out.push(Position { strategy: initial_datas[k1].strategy, debt: b[k1] });
        k1 += 1;
    }
    proof {
        assert(position_views(out@) =~= with_debts(psv, debt_vals(b@)));
    }
    let res = reorder_positions(&out, strategy_datas);
    Some(res)
}

} // verus!
