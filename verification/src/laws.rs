//! The library's laws: proofs of the global properties of the allocator and
//! the emission gate, stated over the spec functions that the executable
//! functions are verified against.

use vstd::prelude::*;
use vstd::seq_lib::lemma_multiset_commutative;
use vstd::multiset::Multiset;
use vstd::arithmetic::div_mod::{lemma_div_is_ordered, lemma_div_multiples_vanish, lemma_fundamental_div_mod, lemma_mod_bound};
use crate::num::{pow2_64, pow2_256};
use crate::params::{PositionV, SiloRateParamsV, StrategyParamsV};
use crate::rate::{apr_ok, apr_value};
use crate::allocator::{chunk_result, debts_of, deposits_prefix, is_withdraw, reorder, run_chunks,
    scan_from, spec_optimal_allocation, with_debts, withdraws_prefix};
use crate::blended::{spec_current_and_new_apr, spec_evaluate, AllocationOutputsV};

verus! {

/// The sum of a sequence of naturals.
pub open spec fn sum_of(s: Seq<nat>) -> nat
    decreases s.len(),
{
    if s.len() == 0 {
        0
    } else {
        (sum_of(s.drop_last()) + s.last()) as nat
    }
}

/// The total debt of a sequence of positions.
pub open spec fn sum_debts(ps: Seq<PositionV>) -> nat {
    sum_of(debts_of(ps))
}

proof fn lemma_sum_push(s: Seq<nat>, x: nat)
    ensures
        sum_of(s.push(x)) == sum_of(s) + x,
{
    assert(s.push(x).drop_last() =~= s);
}

proof fn lemma_sum_concat(a: Seq<nat>, b: Seq<nat>)
    ensures
        sum_of(a + b) == sum_of(a) + sum_of(b),
    decreases b.len(),
{
    if b.len() == 0 {
        assert(a + b =~= a);
    } else {
        assert(a + b =~= (a + b.drop_last()).push(b.last()));
        lemma_sum_concat(a, b.drop_last());
        lemma_sum_push(a + b.drop_last(), b.last());
    }
}

proof fn lemma_sum_reverse(s: Seq<nat>)
    ensures
        sum_of(s.reverse()) == sum_of(s),
    decreases s.len(),
{
    if s.len() > 0 {
        assert(s.reverse() =~= seq![s.last()] + s.drop_last().reverse());
        lemma_sum_reverse(s.drop_last());
        lemma_sum_concat(seq![s.last()], s.drop_last().reverse());
        lemma_sum_singleton(s.last());
    }
}

proof fn lemma_sum_singleton(x: nat)
    ensures
        sum_of(seq![x]) == x,
{
    let s = seq![x];
    assert(s.len() == 1 && s.last() == x);
    assert(s.drop_last() =~= Seq::<nat>::empty());
    assert(sum_of(s.drop_last()) == 0);
}

proof fn lemma_sum_update(s: Seq<nat>, i: int, v: nat)
    requires
        0 <= i < s.len(),
    ensures
        sum_of(s.update(i, v)) == sum_of(s) - s[i] + v,
    decreases s.len(),
{
    if i == s.len() - 1 {
        assert(s.update(i, v).drop_last() =~= s.drop_last());
        assert(s.update(i, v).last() == v);
    } else {
        assert(s.update(i, v).drop_last() =~= s.drop_last().update(i, v));
        assert(s.update(i, v).last() == s.last());
        lemma_sum_update(s.drop_last(), i, v);
    }
}

/// One committed chunk adds exactly `unit` to the total debt and keeps the
/// length; with all debts within their caps, they stay within their caps.
proof fn lemma_chunk_sum_and_caps(
    unit: nat,
    debts: Seq<nat>,
    silos: Seq<SiloRateParamsV>,
    strats: Seq<StrategyParamsV>,
)
    requires
        chunk_result(unit, debts, silos, strats) is Some,
    ensures
        ({
            let d2 = chunk_result(unit, debts, silos, strats)->Some_0;
            &&& d2.len() == debts.len()
            &&& sum_of(d2) == sum_of(debts) + unit
            &&& forall|q: int|
                (forall|w: int| 0 <= w < debts.len() ==> debts[w] <= strats[w].max_debt) && 0 <= q
                    < debts.len() ==> d2[q] <= strats[q].max_debt
        }),
{
    let t = scan_from(unit, debts, silos, strats, 0, 0, 0)->Some_0;
    lemma_scan_greedy(unit, debts, silos, strats);
    lemma_sum_update(debts, t.1, (debts[t.1] + unit) as nat);
}

/// Running `k` chunks adds `unit · (k-1) + last_unit` to the total debt.
proof fn lemma_chunks_sum(
    unit: nat,
    last_unit: nat,
    k: nat,
    debts: Seq<nat>,
    silos: Seq<SiloRateParamsV>,
    strats: Seq<StrategyParamsV>,
)
    requires
        k >= 1,
        run_chunks(unit, last_unit, k, debts, silos, strats) is Some,
    ensures
        ({
            let d2 = run_chunks(unit, last_unit, k, debts, silos, strats)->Some_0;
            &&& d2.len() == debts.len()
            &&& sum_of(d2) == sum_of(debts) + unit * (k - 1) + last_unit
        }),
    decreases k,
{
    let u = if k == 1 {
        last_unit
    } else {
        unit
    };
    let d1 = chunk_result(u, debts, silos, strats)->Some_0;
    lemma_chunk_sum_and_caps(u, debts, silos, strats);
    if k == 1 {
        assert(run_chunks(unit, last_unit, k, debts, silos, strats) == run_chunks(
            unit,
            last_unit,
            0,
            d1,
            silos,
            strats,
        ));
        assert(sum_of(d1) == sum_of(debts) + last_unit);
        assert(unit * (k - 1) == 0) by (nonlinear_arith)
            requires
                k == 1,
        ;
    } else {
        assert(run_chunks(unit, last_unit, k, debts, silos, strats) == run_chunks(
            unit,
            last_unit,
            (k - 1) as nat,
            d1,
            silos,
            strats,
        ));
        lemma_chunks_sum(unit, last_unit, (k - 1) as nat, d1, silos, strats);
        let d2 = run_chunks(unit, last_unit, (k - 1) as nat, d1, silos, strats)->Some_0;
        assert(sum_of(d2) == sum_of(d1) + unit * (((k - 1) as nat) - 1) + last_unit);
        assert(sum_of(d1) == sum_of(debts) + unit);
        assert(((k - 1) as nat) - 1 == k - 2);
        assert(unit * (k - 1) == unit * (k - 2) + unit) by (nonlinear_arith);
        assert(sum_of(d2) == sum_of(debts) + unit * (k - 1) + last_unit);
    }
}

/// Chunks preserve caps: if every silo starts within its cap, every silo
/// ends within its cap.
proof fn lemma_chunks_caps(
    unit: nat,
    last_unit: nat,
    k: nat,
    debts: Seq<nat>,
    silos: Seq<SiloRateParamsV>,
    strats: Seq<StrategyParamsV>,
)
    requires
        run_chunks(unit, last_unit, k, debts, silos, strats) is Some,
        forall|w: int| 0 <= w < debts.len() ==> debts[w] <= strats[w].max_debt,
    ensures
        ({
            let d2 = run_chunks(unit, last_unit, k, debts, silos, strats)->Some_0;
            &&& d2.len() == debts.len()
            &&& forall|w: int| 0 <= w < d2.len() ==> d2[w] <= strats[w].max_debt
        }),
    decreases k,
{
    if k > 0 {
        let u = if k == 1 {
            last_unit
        } else {
            unit
        };
        let d1 = chunk_result(u, debts, silos, strats)->Some_0;
        lemma_chunk_sum_and_caps(u, debts, silos, strats);
        lemma_chunks_caps(unit, last_unit, (k - 1) as nat, d1, silos, strats);
    }
}

/// Reordering preserves the total debt.
proof fn lemma_reorder_sum(ps: Seq<PositionV>, strats: Seq<StrategyParamsV>, k: int)
    requires
        0 <= k <= ps.len(),
    ensures
        sum_debts(withdraws_prefix(ps, strats, k)) + sum_debts(deposits_prefix(ps, strats, k)) == sum_of(
            debts_of(ps).take(k),
        ),
    decreases k,
{
    if k == 0 {
        assert(debts_of(ps).take(0) =~= Seq::<nat>::empty());
        assert(debts_of(withdraws_prefix(ps, strats, 0)) =~= Seq::<nat>::empty());
        assert(debts_of(deposits_prefix(ps, strats, 0)) =~= Seq::<nat>::empty());
    } else {
        lemma_reorder_sum(ps, strats, k - 1);
        assert(debts_of(ps).take(k) =~= debts_of(ps).take(k - 1).push(ps[k - 1].debt));
        lemma_sum_push(debts_of(ps).take(k - 1), ps[k - 1].debt);
        if is_withdraw(ps[k - 1], strats[k - 1]) {
            assert(debts_of(withdraws_prefix(ps, strats, k)) =~= debts_of(
                withdraws_prefix(ps, strats, k - 1),
            ).push(ps[k - 1].debt));
            lemma_sum_push(debts_of(withdraws_prefix(ps, strats, k - 1)), ps[k - 1].debt);
        } else {
            assert(debts_of(deposits_prefix(ps, strats, k)) =~= debts_of(
                deposits_prefix(ps, strats, k - 1),
            ).push(ps[k - 1].debt));
            lemma_sum_push(debts_of(deposits_prefix(ps, strats, k - 1)), ps[k - 1].debt);
        }
    }
}

/// Full deployment: whenever a non-empty plan comes out of the
/// allocator and the initial debts sum to `a0`, the emitted debts sum to `a`.
pub proof fn lemma_full_deployment(
    c: nat,
    a0: nat,
    a: nat,
    initial: Seq<PositionV>,
    silos: Seq<SiloRateParamsV>,
    strats: Seq<StrategyParamsV>,
)
    requires
        spec_optimal_allocation(c, a0, a, initial, silos, strats) is Some,
        spec_optimal_allocation(c, a0, a, initial, silos, strats)->Some_0.len() > 0,
        sum_debts(initial) == a0,
    ensures
        sum_debts(spec_optimal_allocation(c, a0, a, initial, silos, strats)->Some_0) == a,
{
    let unit = ((a - a0) as nat) / c;
    let last_unit = ((a - a0) - unit * (c - 1)) as nat;
    let d0 = debts_of(initial);
    let d2 = run_chunks(unit, last_unit, c, d0, silos, strats)->Some_0;
    lemma_chunks_sum(unit, last_unit, c, d0, silos, strats);
    lemma_fundamental_div_mod((a - a0) as int, c as int);
    lemma_mod_bound((a - a0) as int, c as int);
    let u_ = unit as int;
    let c_ = c as int;
    assert(u_ * (c_ - 1) == c_ * u_ - u_) by (nonlinear_arith);
    assert(unit * (c - 1) + last_unit == a - a0);
    assert(sum_of(d2) == a0 + (a - a0));
    let raw = with_debts(initial, d2);
    assert(debts_of(raw) =~= d2);
    let n = raw.len() as int;
    lemma_reorder_sum(raw, strats, n);
    assert(debts_of(raw).take(n) =~= debts_of(raw));
    let wp = withdraws_prefix(raw, strats, n);
    let dp = deposits_prefix(raw, strats, n);
    assert(debts_of(wp + dp.reverse()) =~= debts_of(wp) + debts_of(dp.reverse()));
    assert(debts_of(dp.reverse()) =~= debts_of(dp).reverse());
    lemma_sum_concat(debts_of(wp), debts_of(dp).reverse());
    lemma_sum_reverse(debts_of(dp));
}

/// Caps respected: when every initial debt is within its silo's cap,
/// every debt of the raw allocation stays within its silo's cap.  (The
/// emitted vector is a permutation of the raw one; see
/// [`lemma_reorder_permutes`].)
pub proof fn lemma_caps_respected(
    c: nat,
    a0: nat,
    a: nat,
    initial: Seq<PositionV>,
    silos: Seq<SiloRateParamsV>,
    strats: Seq<StrategyParamsV>,
)
    requires
        c >= 1,
        a >= a0,
        run_chunks(
            ((a - a0) as nat) / c,
            ((a - a0) - (((a - a0) as nat) / c) * (c - 1)) as nat,
            c,
            debts_of(initial),
            silos,
            strats,
        ) is Some,
        forall|w: int| 0 <= w < initial.len() ==> initial[w].debt <= strats[w].max_debt,
    ensures
        ({
            let d2 = run_chunks(
                ((a - a0) as nat) / c,
                ((a - a0) - (((a - a0) as nat) / c) * (c - 1)) as nat,
                c,
                debts_of(initial),
                silos,
                strats,
            )->Some_0;
            &&& d2.len() == initial.len()
            &&& forall|w: int| 0 <= w < d2.len() ==> d2[w] <= strats[w].max_debt
        }),
{
    let unit = ((a - a0) as nat) / c;
    let last_unit = ((a - a0) - unit * (c - 1)) as nat;
    let d0 = debts_of(initial);
    assert(forall|w: int| 0 <= w < d0.len() ==> d0[w] <= strats[w].max_debt);
    lemma_chunks_caps(unit, last_unit, c, d0, silos, strats);
}

/// The reordering is a permutation: the multiset of emitted
/// (strategy, debt) pairs equals the multiset of the raw ones.
pub proof fn lemma_reorder_permutes(ps: Seq<PositionV>, strats: Seq<StrategyParamsV>)
    ensures
        reorder(ps, strats).to_multiset() == ps.to_multiset(),
{
    let n = ps.len() as int;
    lemma_reorder_multiset_prefix(ps, strats, n);
    let wp = withdraws_prefix(ps, strats, n);
    let dp = deposits_prefix(ps, strats, n);
    lemma_multiset_commutative(wp, dp.reverse());
    dp.lemma_reverse_to_multiset();
    assert(ps.take(n) =~= ps);
}

/// The input indices of the withdraws among the first `k` positions, in
/// ascending order.
pub open spec fn withdraw_indices(ps: Seq<PositionV>, strats: Seq<StrategyParamsV>, k: int) -> Seq<int>
    decreases k,
{
    if k <= 0 {
        Seq::empty()
    } else if is_withdraw(ps[k - 1], strats[k - 1]) {
        withdraw_indices(ps, strats, k - 1).push(k - 1)
    } else {
        withdraw_indices(ps, strats, k - 1)
    }
}

/// The input indices of the deposits among the first `k` positions, in
/// ascending order.
pub open spec fn deposit_indices(ps: Seq<PositionV>, strats: Seq<StrategyParamsV>, k: int) -> Seq<int>
    decreases k,
{
    if k <= 0 {
        Seq::empty()
    } else if !is_withdraw(ps[k - 1], strats[k - 1]) {
        deposit_indices(ps, strats, k - 1).push(k - 1)
    } else {
        deposit_indices(ps, strats, k - 1)
    }
}

proof fn lemma_indices_props(ps: Seq<PositionV>, strats: Seq<StrategyParamsV>, k: int)
    requires
        0 <= k <= ps.len(),
    ensures
        ({
            let wi = withdraw_indices(ps, strats, k);
            let di = deposit_indices(ps, strats, k);
            let wp = withdraws_prefix(ps, strats, k);
            let dp = deposits_prefix(ps, strats, k);
            &&& wi.len() == wp.len()
            &&& di.len() == dp.len()
            &&& wi.len() + di.len() == k
            &&& forall|q: int|
                0 <= q < wi.len() ==> 0 <= #[trigger] wi[q] < k && is_withdraw(ps[wi[q]], strats[wi[q]])
                    && wp[q] == ps[wi[q]]
            &&& forall|q: int|
                0 <= q < di.len() ==> 0 <= #[trigger] di[q] < k && !is_withdraw(ps[di[q]], strats[di[q]])
                    && dp[q] == ps[di[q]]
            &&& forall|q1: int, q2: int| 0 <= q1 < q2 < wi.len() ==> #[trigger] wi[q1] < #[trigger] wi[q2]
            &&& forall|q1: int, q2: int| 0 <= q1 < q2 < di.len() ==> #[trigger] di[q1] < #[trigger] di[q2]
            &&& forall|i: int|
                0 <= i < k ==> (is_withdraw(ps[i], strats[i]) ==> wi.contains(i)) && (!is_withdraw(
                    ps[i],
                    strats[i],
                ) ==> di.contains(i))
        }),
    decreases k,
{
    if k > 0 {
        lemma_indices_props(ps, strats, k - 1);
        let wi0 = withdraw_indices(ps, strats, k - 1);
        let di0 = deposit_indices(ps, strats, k - 1);
        let wi = withdraw_indices(ps, strats, k);
        let di = deposit_indices(ps, strats, k);
        assert forall|i: int|
            0 <= i < k && is_withdraw(ps[i], strats[i]) implies wi.contains(i) by {
            if i == k - 1 {
                assert(wi[wi.len() - 1] == i);
            } else {
                assert(wi0.contains(i));
                let q = choose|q: int| 0 <= q < wi0.len() && wi0[q] == i;
                assert(0 <= q < wi.len() && wi[q] == i);
            }
        }
        assert forall|i: int|
            0 <= i < k && !is_withdraw(ps[i], strats[i]) implies di.contains(i) by {
            if i == k - 1 {
                assert(di[di.len() - 1] == i);
            } else {
                assert(di0.contains(i));
                let q = choose|q: int| 0 <= q < di0.len() && di0[q] == i;
                assert(0 <= q < di.len() && di[q] == i);
            }
        }
    }
}

/// Emission order: the emitted vector lists every withdraw first, in
/// ascending input order, then every deposit, in descending input order.
pub proof fn lemma_emission_order(ps: Seq<PositionV>, strats: Seq<StrategyParamsV>)
    ensures
        ({
            let out = reorder(ps, strats);
            let n = ps.len() as int;
            let wi = withdraw_indices(ps, strats, n);
            let di = deposit_indices(ps, strats, n);
            &&& out.len() == n
            &&& wi.len() + di.len() == n
            &&& forall|q: int|
                0 <= q < wi.len() ==> out[q] == ps[#[trigger] wi[q]] && is_withdraw(ps[wi[q]], strats[wi[q]])
            &&& forall|q: int|
                0 <= q < di.len() ==> out[wi.len() + q] == ps[#[trigger] di[di.len() - 1 - q]]
                    && !is_withdraw(ps[di[di.len() - 1 - q]], strats[di[di.len() - 1 - q]])
            &&& forall|q1: int, q2: int| 0 <= q1 < q2 < wi.len() ==> #[trigger] wi[q1] < #[trigger] wi[q2]
            &&& forall|q1: int, q2: int| 0 <= q1 < q2 < di.len() ==> #[trigger] di[q1] < #[trigger] di[q2]
            &&& forall|i: int|
                0 <= i < n ==> (is_withdraw(ps[i], strats[i]) ==> wi.contains(i)) && (!is_withdraw(
                    ps[i],
                    strats[i],
                ) ==> di.contains(i))
        }),
{
    let n = ps.len() as int;
    lemma_indices_props(ps, strats, n);
    let wp = withdraws_prefix(ps, strats, n);
    let dp = deposits_prefix(ps, strats, n);
    assert(reorder(ps, strats) == wp + dp.reverse());
    assert(forall|q: int| 0 <= q < dp.len() ==> dp.reverse()[q] == dp[dp.len() - 1 - q]);
}

/// The silo `k` can absorb `unit` more debt without passing its cap.
pub open spec fn chunk_eligible(unit: nat, debts: Seq<nat>, strats: Seq<StrategyParamsV>, k: int) -> bool {
    debts[k] + unit <= strats[k].max_debt
}

/// The annualized rate of silo `k` if it received `unit` more debt.
pub open spec fn chunk_apr(
    unit: nat,
    debts: Seq<nat>,
    silos: Seq<SiloRateParamsV>,
    strats: Seq<StrategyParamsV>,
    k: int,
) -> int {
    apr_value(silos[k], debts[k] + unit - strats[k].current_debt)
}

proof fn lemma_scan_argmax_rec(
    unit: nat,
    debts: Seq<nat>,
    silos: Seq<SiloRateParamsV>,
    strats: Seq<StrategyParamsV>,
    j: int,
    best_apr: nat,
    best_idx: int,
)
    requires
        0 <= j <= debts.len(),
        scan_from(unit, debts, silos, strats, j, best_apr, best_idx) is Some,
        best_apr > 0 ==> 0 <= best_idx < j && chunk_eligible(unit, debts, strats, best_idx) && chunk_apr(
            unit,
            debts,
            silos,
            strats,
            best_idx,
        ) == best_apr,
        forall|k: int|
            0 <= k < j && #[trigger] chunk_eligible(unit, debts, strats, k) ==> chunk_apr(
                unit,
                debts,
                silos,
                strats,
                k,
            ) <= best_apr,
        forall|k: int|
            0 <= k < best_idx && #[trigger] chunk_eligible(unit, debts, strats, k) ==> chunk_apr(
                unit,
                debts,
                silos,
                strats,
                k,
            ) < best_apr,
    ensures
        ({
            let t = scan_from(unit, debts, silos, strats, j, best_apr, best_idx)->Some_0;
            &&& t.0 > 0 ==> 0 <= t.1 < debts.len() && chunk_eligible(unit, debts, strats, t.1)
                && chunk_apr(unit, debts, silos, strats, t.1) == t.0
            &&& forall|k: int|
                0 <= k < debts.len() && #[trigger] chunk_eligible(unit, debts, strats, k) ==> chunk_apr(
                    unit,
                    debts,
                    silos,
                    strats,
                    k,
                ) <= t.0
            &&& forall|k: int|
                0 <= k < t.1 && #[trigger] chunk_eligible(unit, debts, strats, k) ==> chunk_apr(
                    unit,
                    debts,
                    silos,
                    strats,
                    k,
                ) < t.0
        }),
    decreases debts.len() - j,
{
    if j < debts.len() {
        if debts[j] + unit >= pow2_256() {
        } else if debts[j] + unit > strats[j].max_debt {
            lemma_scan_argmax_rec(unit, debts, silos, strats, j + 1, best_apr, best_idx);
        } else {
            let d = debts[j] + unit - strats[j].current_debt;
            if apr_ok(silos[j], d) {
                let a = apr_value(silos[j], d);
                if a < pow2_64() {
                    if best_apr >= a {
                        lemma_scan_argmax_rec(unit, debts, silos, strats, j + 1, best_apr, best_idx);
                    } else {
                        lemma_scan_argmax_rec(unit, debts, silos, strats, j + 1, a as nat, j);
                    }
                }
            }
        }
    }
}

/// The greedy scan picks an argmax: no eligible silo beats the winner, and
/// every eligible silo before the winner is strictly worse (ties keep the
/// earliest index).
pub proof fn lemma_scan_greedy(
    unit: nat,
    debts: Seq<nat>,
    silos: Seq<SiloRateParamsV>,
    strats: Seq<StrategyParamsV>,
)
    requires
        scan_from(unit, debts, silos, strats, 0, 0, 0) is Some,
    ensures
        ({
            let t = scan_from(unit, debts, silos, strats, 0, 0, 0)->Some_0;
            &&& t.0 > 0 ==> 0 <= t.1 < debts.len() && chunk_eligible(unit, debts, strats, t.1)
                && chunk_apr(unit, debts, silos, strats, t.1) == t.0
            &&& forall|k: int|
                0 <= k < debts.len() && #[trigger] chunk_eligible(unit, debts, strats, k) ==> chunk_apr(
                    unit,
                    debts,
                    silos,
                    strats,
                    k,
                ) <= t.0
            &&& forall|k: int|
                0 <= k < t.1 && #[trigger] chunk_eligible(unit, debts, strats, k) ==> chunk_apr(
                    unit,
                    debts,
                    silos,
                    strats,
                    k,
                ) < t.0
        }),
{
    lemma_scan_argmax_rec(unit, debts, silos, strats, 0, 0, 0);
}

/// A single chunk: with `c == 1` the whole increment lands in exactly
/// one silo, the earliest one whose rate at debt `initial + (a - a0)` is
/// maximal among the eligible silos.
pub proof fn lemma_single_chunk_winner(
    a0: nat,
    a: nat,
    initial: Seq<PositionV>,
    silos: Seq<SiloRateParamsV>,
    strats: Seq<StrategyParamsV>,
)
    requires
        a > a0,
        spec_optimal_allocation(1, a0, a, initial, silos, strats) is Some,
    ensures
        ({
            let unit = (a - a0) as nat;
            let d0 = debts_of(initial);
            let s = scan_from(unit, d0, silos, strats, 0, 0, 0);
            let t = s->Some_0;
            &&& s is Some
            &&& t.0 > 0
            &&& 0 <= t.1 < d0.len() && chunk_eligible(unit, d0, strats, t.1) && chunk_apr(
                unit,
                d0,
                silos,
                strats,
                t.1,
            ) == t.0
            &&& forall|k: int|
                0 <= k < d0.len() && #[trigger] chunk_eligible(unit, d0, strats, k) ==> chunk_apr(
                    unit,
                    d0,
                    silos,
                    strats,
                    k,
                ) <= t.0
            &&& forall|k: int|
                0 <= k < t.1 && #[trigger] chunk_eligible(unit, d0, strats, k) ==> chunk_apr(
                    unit,
                    d0,
                    silos,
                    strats,
                    k,
                ) < t.0
            &&& spec_optimal_allocation(1, a0, a, initial, silos, strats)->Some_0 == reorder(
                with_debts(initial, d0.update(t.1, (d0[t.1] + unit) as nat)),
                strats,
            )
        }),
{
    let unit = ((a - a0) as nat) / 1;
    assert(unit == (a - a0) as nat) by {
        lemma_fundamental_div_mod((a - a0) as int, 1int);
        lemma_mod_bound((a - a0) as int, 1int);
    }
    let d0 = debts_of(initial);
    assert(unit * (1 - 1) == 0) by (nonlinear_arith);
    let last_unit = ((a - a0) - unit * (1 - 1)) as nat;
    assert(last_unit == (a - a0) as nat);
    assert(run_chunks(unit, last_unit, 1, d0, silos, strats) == match chunk_result(
        last_unit,
        d0,
        silos,
        strats,
    ) {
        Option::None => Option::<Seq<nat>>::None,
        Option::Some(d) => run_chunks(unit, last_unit, 0, d, silos, strats),
    });
    lemma_scan_greedy(last_unit, d0, silos, strats);
}

/// Paused interest: the annualized rate of a paused silo is its stored
/// per-second rate annualized, whatever the debt delta; combined with
/// [`lemma_scan_greedy`], the paused silo with the greatest stored rate wins
/// every chunk.
pub proof fn lemma_paused_apr(p: SiloRateParamsV, delta: int)
    requires
        p.is_interest_paused,
    ensures
        apr_value(p, delta) == (p.rate_per_sec * crate::rate::seconds_per_year()) as int / (crate::rate::e13() as int),
        apr_ok(p, delta) == (p.rate_per_sec * crate::rate::seconds_per_year() < pow2_256()),
{
}

/// Ceiling direction: below the target band the unclamped ceiling does
/// not grow, above it it does not shrink, and inside it it is unchanged.
pub proof fn lemma_ceiling_direction(p: SiloRateParamsV, dt: nat, u: nat)
    requires
        crate::rate::full_util_ok(p, dt, u),
        p.min_target_util <= p.max_target_util,
    ensures
        u < p.min_target_util ==> crate::rate::full_util_unclamped(p, dt, u) <= p.full_utilization_rate,
        u > p.max_target_util ==> crate::rate::full_util_unclamped(p, dt, u) >= p.full_utilization_rate,
        p.min_target_util <= u <= p.max_target_util ==> crate::rate::full_util_unclamped(p, dt, u)
            == p.full_utilization_rate,
{
    let f = p.full_utilization_rate as int;
    if u < p.min_target_util {
        let du = (p.min_target_util - u) * crate::rate::e18() / (p.min_target_util as int);
        let x = (p.rate_half_life * crate::rate::e36()) as int;
        let growth = x + du * du * dt;
        assert(du * du * dt >= 0) by (nonlinear_arith)
            requires
                dt >= 0,
        ;
        assert(f * x <= f * growth) by (nonlinear_arith)
            requires
                x <= growth,
                f >= 0,
        ;
        lemma_div_is_ordered(f * x, f * growth, growth);
        lemma_div_multiples_vanish(f, growth);
        assert(f * growth == growth * f) by (nonlinear_arith);
        assert((f * x) / growth <= f);
    } else if u > p.max_target_util {
        let du = (u - p.max_target_util) * crate::rate::e18() / (p.util_prec - p.max_target_util);
        let x = (p.rate_half_life * crate::rate::e36()) as int;
        let growth = x + du * du * dt;
        assert(du * du * dt >= 0) by (nonlinear_arith)
            requires
                dt >= 0,
        ;
        assert(x > 0);
        assert(x <= growth);
        assert(f * x <= f * growth) by (nonlinear_arith)
            requires
                x <= growth,
                f >= 0,
        ;
        lemma_div_is_ordered(f * x, f * growth, x);
        lemma_div_multiples_vanish(f, x);
        assert(f * x == x * f) by (nonlinear_arith);
        assert((f * x) / x == f);
        assert((f * growth) / x >= f);
        assert(crate::rate::full_util_unclamped(p, dt, u) == (f * growth) / x);
    }
}

/// A zero chunk size is a pure no-op: the engine emits the empty plan
/// with both APRs zero and `success == false`.
pub proof fn lemma_zero_unit_no_op(
    c: nat,
    a0: nat,
    a: nat,
    initial: Seq<PositionV>,
    silos: Seq<SiloRateParamsV>,
    strats: Seq<StrategyParamsV>,
)
    requires
        c >= 1,
        a >= a0,
        ((a - a0) as nat) / c == 0,
    ensures
        spec_evaluate(c, a0, a, initial, silos, strats) == Some(
            AllocationOutputsV {
                allocations: Seq::<PositionV>::empty(),
                new_apr: 0nat,
                current_apr: 0nat,
                success: false,
            },
        ),
{
    assert(spec_optimal_allocation(c, a0, a, initial, silos, strats) == Some(Seq::<PositionV>::empty()));
    assert(spec_current_and_new_apr(initial, silos, strats, Seq::<PositionV>::empty()) == Some((0nat, 0nat)));
}

/// Rerunning on its own output is a no-op: with the initial amount
/// equal to the available amount the chunk size is zero, whatever the
/// positions are.
pub proof fn lemma_rerun_no_op(
    c: nat,
    a: nat,
    initial: Seq<PositionV>,
    silos: Seq<SiloRateParamsV>,
    strats: Seq<StrategyParamsV>,
)
    requires
        c >= 1,
    ensures
        spec_evaluate(c, a, a, initial, silos, strats) == Some(
            AllocationOutputsV {
                allocations: Seq::<PositionV>::empty(),
                new_apr: 0nat,
                current_apr: 0nat,
                success: false,
            },
        ),
{
    assert(((a - a) as nat) / c == 0) by {
        lemma_fundamental_div_mod(0int, c as int);
        lemma_mod_bound(0int, c as int);
        assert(c as int * 0 == 0) by (nonlinear_arith);
    }
    lemma_zero_unit_no_op(c, a, a, initial, silos, strats);
}

/// An emitted plan deploys everything: whenever the engine succeeds and the
/// initial debts sum to `a0`, the debts of the emitted plan sum to `a`.
pub proof fn lemma_emitted_plan_sums_to_available(
    c: nat,
    a0: nat,
    a: nat,
    initial: Seq<PositionV>,
    silos: Seq<SiloRateParamsV>,
    strats: Seq<StrategyParamsV>,
)
    requires
        spec_evaluate(c, a0, a, initial, silos, strats) is Some,
        spec_evaluate(c, a0, a, initial, silos, strats)->Some_0.success,
        sum_debts(initial) == a0,
    ensures
        sum_debts(spec_evaluate(c, a0, a, initial, silos, strats)->Some_0.allocations) == a,
{
    let opt = spec_optimal_allocation(c, a0, a, initial, silos, strats)->Some_0;
    if opt.len() == 0 {
        assert(spec_current_and_new_apr(initial, silos, strats, opt) == Some((0nat, 0nat)));
    } else {
        lemma_full_deployment(c, a0, a, initial, silos, strats);
    }
}

/// Whenever the new blended APR does not strictly exceed the current one,
/// nothing is emitted and `success` is false.
pub proof fn lemma_gate_rejects(
    c: nat,
    a0: nat,
    a: nat,
    initial: Seq<PositionV>,
    silos: Seq<SiloRateParamsV>,
    strats: Seq<StrategyParamsV>,
)
    requires
        spec_evaluate(c, a0, a, initial, silos, strats) is Some,
        spec_evaluate(c, a0, a, initial, silos, strats)->Some_0.new_apr <= spec_evaluate(
            c,
            a0,
            a,
            initial,
            silos,
            strats,
        )->Some_0.current_apr,
    ensures
        spec_evaluate(c, a0, a, initial, silos, strats)->Some_0.success == false,
        spec_evaluate(c, a0, a, initial, silos, strats)->Some_0.allocations == Seq::<PositionV>::empty(),
{
}

proof fn lemma_reorder_multiset_prefix(ps: Seq<PositionV>, strats: Seq<StrategyParamsV>, k: int)
    requires
        0 <= k <= ps.len(),
    ensures
        withdraws_prefix(ps, strats, k).to_multiset().add(
            deposits_prefix(ps, strats, k).to_multiset(),
        ) =~= ps.take(k).to_multiset(),
    decreases k,
{
    broadcast use vstd::seq_lib::group_to_multiset_ensures;

    if k == 0 {
        assert(ps.take(0) =~= Seq::<PositionV>::empty());
        assert(withdraws_prefix(ps, strats, 0) =~= Seq::<PositionV>::empty());
        assert(deposits_prefix(ps, strats, 0) =~= Seq::<PositionV>::empty());
        assert(Seq::<PositionV>::empty().to_multiset() =~= Multiset::<PositionV>::empty());
    } else {
        lemma_reorder_multiset_prefix(ps, strats, k - 1);
        assert(ps.take(k) =~= ps.take(k - 1).push(ps[k - 1]));
    }
}

} // verus!
