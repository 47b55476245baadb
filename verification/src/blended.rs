//! The blended-APR evaluator and the emission gate.
//!
//! The current blended APR weighs each silo's annualized rate (at zero debt
//! delta) by its booked debt; the new blended APR weighs the rate after the
//! planned debt change by the planned debt, looking each planned position up
//! by its strategy address in the initial vector and stopping at the first
//! miss.  A plan is emitted only when the new blended APR strictly exceeds
//! the current one.

use vstd::prelude::*;
use crate::num::{pow2_64, pow2_256, u256_checked_add, u256_checked_div, u256_checked_mul, SignedAmount,
    Uint256};
use crate::params::{position_views, silo_views, strategy_views, Position, PositionV, SiloRateParams,
    SiloRateParamsV, StrategyParams, StrategyParamsV};
use crate::rate::{apr_after_debt_change, apr_ok, apr_value};
use crate::allocator::spec_optimal_allocation;

verus! {

/// Accumulates `Σ apr_i · current_debt_i` and `Σ current_debt_i` over silos
/// `i..n`; `None` on a rate fault or a 256-bit overflow of an accumulator.
pub open spec fn current_sums(
    silos: Seq<SiloRateParamsV>,
    strats: Seq<StrategyParamsV>,
    i: int,
    n: int,
    apr_acc: nat,
    amt_acc: nat,
) -> Option<(nat, nat)>
    decreases n - i,
{
    if i < 0 || i >= n {
        Some((apr_acc, amt_acc))
    } else if !apr_ok(silos[i], 0) {
        None
    } else {
        let ap = apr_value(silos[i], 0);
        let cd = strats[i].current_debt;
        if ap * cd >= pow2_256() {
            None
        } else if apr_acc + ap * cd >= pow2_256() {
            None
        } else if amt_acc + cd >= pow2_256() {
            None
        } else {
            current_sums(silos, strats, i + 1, n, (apr_acc + ap * cd) as nat, (amt_acc + cd) as nat)
        }
    }
}

/// The first index in `initial` whose strategy equals `s`, or `initial.len()`.
pub open spec fn find_index(initial: Seq<PositionV>, s: nat, j: int) -> int
    decreases initial.len() - j,
{
    if j < 0 || j >= initial.len() {
        initial.len() as int
    } else if initial[j].strategy == s {
        j
    } else {
        find_index(initial, s, j + 1)
    }
}

/// Accumulates `Σ apr_i · optimal_debt_i` and `Σ optimal_debt_i` over the
/// plan entries `i..n`, stopping at the first entry whose strategy is not
/// found; `None` on a fault, including a plan shorter than the silo count.
pub open spec fn new_sums(
    initial: Seq<PositionV>,
    silos: Seq<SiloRateParamsV>,
    strats: Seq<StrategyParamsV>,
    optimal: Seq<PositionV>,
    i: int,
    n: int,
    apr_acc: nat,
    amt_acc: nat,
) -> Option<(nat, nat)>
    decreases n - i,
{
    if i < 0 || i >= n {
        Some((apr_acc, amt_acc))
    } else if i >= optimal.len() {
        None
    } else {
        let j = find_index(initial, optimal[i].strategy, 0);
        if j >= initial.len() {
            Some((apr_acc, amt_acc))
        } else {
            let d = optimal[i].debt - strats[j].current_debt;
            if !apr_ok(silos[j], d) {
                None
            } else {
                let ap = apr_value(silos[j], d);
                let od = optimal[i].debt;
                if ap * od >= pow2_256() {
                    None
                } else if apr_acc + ap * od >= pow2_256() {
                    None
                } else if amt_acc + od >= pow2_256() {
                    None
                } else {
                    new_sums(
                        initial,
                        silos,
                        strats,
                        optimal,
                        i + 1,
                        n,
                        (apr_acc + ap * od) as nat,
                        (amt_acc + od) as nat,
                    )
                }
            }
        }
    }
}

/// The blended ratio: zero when either accumulator is zero, else the floor
/// quotient; `None` when the quotient does not fit 64 bits.
pub open spec fn apr_ratio(total_apr: nat, total_amount: nat) -> Option<nat> {
    if total_apr == 0 || total_amount == 0 {
        Some(0nat)
    } else if total_apr / total_amount >= pow2_64() {
        None
    } else {
        Some(total_apr / total_amount)
    }
}

/// The pair `(current_apr, new_apr)`; `(0, 0)` for an empty plan.
pub open spec fn spec_current_and_new_apr(
    initial: Seq<PositionV>,
    silos: Seq<SiloRateParamsV>,
    strats: Seq<StrategyParamsV>,
    optimal: Seq<PositionV>,
) -> Option<(nat, nat)> {
    if optimal.len() == 0 {
        Some((0nat, 0nat))
    } else {
        let n = initial.len() as int;
        match current_sums(silos, strats, 0, n, 0, 0) {
            None => None,
            Some(cs) => match apr_ratio(cs.0, cs.1) {
                None => None,
                Some(cur) => match new_sums(initial, silos, strats, optimal, 0, n, 0, 0) {
                    None => None,
                    Some(ns) => match apr_ratio(ns.0, ns.1) {
                        None => None,
                        Some(nw) => Some((cur, nw)),
                    },
                },
            },
        }
    }
}

/// Computes the current and new blended APR for a plan; `None` exactly when
/// [`spec_current_and_new_apr`] faults.
#[verifier::loop_isolation(false)]
#[verifier::rlimit(100)]
pub fn get_current_and_new_apr(
    initial_datas: &Vec<Position>,
    sturdy_datas: &Vec<SiloRateParams>,
    strategy_datas: &Vec<StrategyParams>,
    optimal_datas: &Vec<Position>,
) -> (r: Option<(u64, u64)>)
    requires
        sturdy_datas@.len() >= initial_datas@.len(),
        strategy_datas@.len() >= initial_datas@.len(),
    ensures
        ({
            let s = spec_current_and_new_apr(
                position_views(initial_datas@),
                silo_views(sturdy_datas@),
                strategy_views(strategy_datas@),
                position_views(optimal_datas@),
            );
            &&& s is Some ==> (r matches Some(v) && v.0 as nat == s->Some_0.0 && v.1 as nat == s->Some_0.1)
            &&& s is None ==> r is None
        }),
{
    let ghost psv = position_views(initial_datas@);
    let ghost sv = silo_views(sturdy_datas@);
    let ghost tv = strategy_views(strategy_datas@);
    let ghost ov = position_views(optimal_datas@);

    if optimal_datas.len() == 0 {
        return Some((0, 0));
    }
    let n = initial_datas.len();

    let mut total_apr = Uint256::zero();
    let mut total_amount = Uint256::zero();
    let mut i: usize = 0;
    while i < n
        invariant
            i <= n,
            current_sums(sv, tv, i as int, n as int, total_apr.val(), total_amount.val()) == current_sums(
                sv,
                tv,
                0,
                n as int,
                0,
                0,
            ),
        decreases n - i,
    {
        let zero_delta = SignedAmount { negative: false, magnitude: Uint256::zero() };
        let ap = match apr_after_debt_change(&sturdy_datas[i], &zero_delta) {
            Some(x) => x,
            None => { return None; },
        };
        let prod = match u256_checked_mul(&ap, &strategy_datas[i].current_debt) {
            Some(x) => x,
            None => { return None; },
        };
        total_apr = match u256_checked_add(&total_apr, &prod) {
            Some(x) => x,
            None => { return None; },
        };
        total_amount = match u256_checked_add(&total_amount, &strategy_datas[i].current_debt) {
            Some(x) => x,
            None => { return None; },
        };
        i += 1;
    }
    let current_apr: u64 = if total_apr.is_zero() || total_amount.is_zero() {
        0
    } else {
        let q = match u256_checked_div(&total_apr, &total_amount) {
            Some(x) => x,
            None => { return None; },
        };
        match q.to_u64() {
            Some(v) => v,
            None => { return None; },
        }
    };

    let mut total_apr2 = Uint256::zero();
    let mut total_amount2 = Uint256::zero();
    let mut i2: usize = 0;
    let mut done = false;
    while i2 < n && !done
        invariant
            i2 <= n,
            if done {
                new_sums(psv, sv, tv, ov, 0, n as int, 0, 0) == Some(
                    (total_apr2.val(), total_amount2.val()),
                )
            } else {
                new_sums(psv, sv, tv, ov, i2 as int, n as int, total_apr2.val(), total_amount2.val())
                    == new_sums(psv, sv, tv, ov, 0, n as int, 0, 0)
            },
        decreases n - i2, (if done { 0int } else { 1int }),
    {
        if i2 >= optimal_datas.len() {
            return None;
        }
        let mut index: usize = n;
        let mut j2: usize = 0;
        while j2 < n && index == n
            invariant
                j2 <= n,
                index == n || (index < n && index as int == find_index(psv, ov[i2 as int].strategy, 0)),
                index == n ==> find_index(psv, ov[i2 as int].strategy, j2 as int) == find_index(
                    psv,
                    ov[i2 as int].strategy,
                    0,
                ),
            decreases n - j2, (if index == n { 1int } else { 0int }),
        {
            if initial_datas[j2].strategy.eq_val(&optimal_datas[i2].strategy) {
                index = j2;
            } else {
                j2 += 1;
            }
        }
        if index == n {
            done = true;
        } else {
            let delta = SignedAmount::sub_of(&optimal_datas[i2].debt, &strategy_datas[index].current_debt);
            let ap = match apr_after_debt_change(&sturdy_datas[index], &delta) {
                Some(x) => x,
                None => { return None; },
            };
            let prod = match u256_checked_mul(&ap, &optimal_datas[i2].debt) {
                Some(x) => x,
                None => { return None; },
            };
            total_apr2 = match u256_checked_add(&total_apr2, &prod) {
                Some(x) => x,
                None => { return None; },
            };
            total_amount2 = match u256_checked_add(&total_amount2, &optimal_datas[i2].debt) {
                Some(x) => x,
                None => { return None; },
            };
            i2 += 1;
        }
    }
    let new_apr: u64 = if total_apr2.is_zero() || total_amount2.is_zero() {
        0
    } else {
        let q = match u256_checked_div(&total_apr2, &total_amount2) {
            Some(x) => x,
            None => { return None; },
        };
        match q.to_u64() {
            Some(v) => v,
            None => { return None; },
        }
    };

    Some((current_apr, new_apr))
}

/// The emitted result: the plan with both blended APRs and the success flag.
pub struct AllocationOutputs {
    pub allocations: Vec<Position>,
    pub new_apr: u64,
    pub current_apr: u64,
    pub success: bool,
}

pub struct AllocationOutputsV {
    pub allocations: Seq<PositionV>,
    pub new_apr: nat,
    pub current_apr: nat,
    pub success: bool,
}

impl View for AllocationOutputs {
    type V = AllocationOutputsV;

    open spec fn view(&self) -> AllocationOutputsV {
        AllocationOutputsV {
            allocations: position_views(self.allocations@),
            new_apr: self.new_apr as nat,
            current_apr: self.current_apr as nat,
            success: self.success,
        }
    }
}

/// The whole engine on decoded values: allocate, compare the blended APRs,
/// and emit the plan only on a strict improvement.
pub open spec fn spec_evaluate(
    c: nat,
    a0: nat,
    a: nat,
    initial: Seq<PositionV>,
    silos: Seq<SiloRateParamsV>,
    strats: Seq<StrategyParamsV>,
) -> Option<AllocationOutputsV> {
    match spec_optimal_allocation(c, a0, a, initial, silos, strats) {
        None => None,
        Some(opt) => match spec_current_and_new_apr(initial, silos, strats, opt) {
            None => None,
            Some(t) => if t.1 > t.0 {
                Some(
                    AllocationOutputsV {
                        allocations: opt,
                        new_apr: t.1,
                        current_apr: t.0,
                        success: true,
                    },
                )
            } else {
                Some(
                    AllocationOutputsV {
                        allocations: Seq::empty(),
                        new_apr: t.1,
                        current_apr: t.0,
                        success: false,
                    },
                )
            },
        },
    }
}

/// Runs the allocator and the emission gate; `None` exactly when
/// [`spec_evaluate`] faults.
pub fn evaluate(
    c: u64,
    total_initial_amount: &Uint256,
    total_available_amount: &Uint256,
    initial_datas: &Vec<Position>,
    sturdy_datas: &Vec<SiloRateParams>,
    strategy_datas: &Vec<StrategyParams>,
) -> (r: Option<AllocationOutputs>)
    requires
        sturdy_datas@.len() >= initial_datas@.len(),
        strategy_datas@.len() >= initial_datas@.len(),
    ensures
        ({
            let s = spec_evaluate(
                c as nat,
                total_initial_amount.val(),
                total_available_amount.val(),
                position_views(initial_datas@),
                silo_views(sturdy_datas@),
                strategy_views(strategy_datas@),
            );
            &&& s is Some ==> (r matches Some(v) && v@ == s->Some_0)
            &&& s is None ==> r is None
        }),
{
    let optimal = match crate::allocator::get_optimal_allocation(
        c,
        total_initial_amount,
        total_available_amount,
        initial_datas,
        sturdy_datas,
        strategy_datas,
    ) {
        Some(x) => x,
        None => { return None; },
    };
    let aprs = match get_current_and_new_apr(initial_datas, sturdy_datas, strategy_datas, &optimal) {
        Some(x) => x,
        None => { return None; },
    };
    let (current_apr, new_apr) = aprs;
    if new_apr > current_apr {
        Some(
            AllocationOutputs {
                allocations: optimal,
                new_apr,
                current_apr,
                success: true,
            },
        )
    } else {
        let empty_alloc: Vec<Position> = Vec::new();
        proof {
            assert(position_views(empty_alloc@) =~= Seq::<PositionV>::empty());
        }
        Some(
            AllocationOutputs {
                allocations: empty_alloc,
                new_apr,
                current_apr,
                success: false,
            },
        )
    }
}

} // verus!
