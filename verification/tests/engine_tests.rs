use optimal_allocation::allocator::{get_optimal_allocation, reorder_positions};
use optimal_allocation::blended::{evaluate, get_current_and_new_apr};
use optimal_allocation::num::Uint256;
use optimal_allocation::params::{Address, Position, SiloRateParams, StrategyParams};
use optimal_allocation::rate::{apr_after_debt_change, get_new_rate};
use optimal_allocation::num::SignedAmount;

fn u(x: u64) -> Uint256 {
    Uint256 { limb0: x, limb1: 0, limb2: 0, limb3: 0 }
}

fn addr(x: u64) -> Address {
    Address { lo: x, mid: 0, hi: 0 }
}

fn pos(a: u64, d: u64) -> Position {
    Position { strategy: addr(a), debt: u(d) }
}

fn strat(current: u64, max: u64) -> StrategyParams {
    StrategyParams { activation: u(0), last_report: u(0), current_debt: u(current), max_debt: u(max) }
}

fn paused_silo(rate: u64) -> SiloRateParams {
    SiloRateParams {
        cur_timestamp: u(0),
        last_timestamp: u(0),
        rate_per_sec: u(rate),
        full_utilization_rate: u(0),
        total_asset: u(0),
        total_borrow: u(0),
        util_prec: u(0),
        min_target_util: u(0),
        max_target_util: u(0),
        vertex_utilization: u(0),
        min_full_util_rate: u(0),
        max_full_util_rate: u(0),
        zero_util_rate: u(0),
        rate_half_life: u(0),
        vertex_rate_percent: u(0),
        rate_prec: u(0),
        is_interest_paused: true,
    }
}

// A live (unpaused) silo with a banded curve: util_prec 100, target band
// [40, 60], vertex 50, rates carried at a 1e9 scale.
fn live_silo(total_asset: u64, total_borrow: u64) -> SiloRateParams {
    SiloRateParams {
        cur_timestamp: u(1000),
        last_timestamp: u(0),
        rate_per_sec: u(0),
        full_utilization_rate: u(5_000_000_000_000),
        total_asset: u(total_asset),
        total_borrow: u(total_borrow),
        util_prec: u(100),
        min_target_util: u(40),
        max_target_util: u(60),
        vertex_utilization: u(50),
        min_full_util_rate: u(1_000_000_000_000),
        max_full_util_rate: u(9_000_000_000_000),
        zero_util_rate: u(100_000_000_000),
        rate_half_life: u(1000),
        vertex_rate_percent: u(50),
        rate_prec: u(100),
        is_interest_paused: false,
    }
}

const APR_1E13: u64 = 31556952;
const APR_2E13: u64 = 63113904;

#[test]
fn pure_no_op() {
    let initial = vec![pos(1, 500), pos(2, 500)];
    let silos = vec![paused_silo(10_000_000_000_000), paused_silo(20_000_000_000_000)];
    let strats = vec![strat(500, 1_000_000), strat(500, 1_000_000)];
    let out = evaluate(4, &u(1000), &u(1000), &initial, &silos, &strats).unwrap();
    assert!(out.allocations.is_empty());
    assert_eq!(out.new_apr, 0);
    assert_eq!(out.current_apr, 0);
    assert!(!out.success);
}

#[test]
fn single_silo_win() {
    let initial = vec![pos(10, 0), pos(11, 0)];
    let silos = vec![paused_silo(20_000_000_000_000), paused_silo(10_000_000_000_000)];
    let strats = vec![strat(0, 1_000_000), strat(0, 1_000_000)];
    let out = evaluate(1, &u(0), &u(100), &initial, &silos, &strats).unwrap();
    assert!(out.success);
    assert_eq!(out.new_apr, APR_2E13);
    assert_eq!(out.current_apr, 0);
    // both silos are deposits, so the order is reversed
    assert_eq!(out.allocations, vec![pos(11, 0), pos(10, 100)]);
}

#[test]
fn cap_forces_spill() {
    let initial = vec![pos(10, 0), pos(11, 0)];
    let silos = vec![paused_silo(20_000_000_000_000), paused_silo(10_000_000_000_000)];
    let strats = vec![strat(0, 40), strat(0, 1_000_000)];
    let out = evaluate(2, &u(0), &u(100), &initial, &silos, &strats).unwrap();
    assert!(out.success);
    assert_eq!(out.new_apr, APR_1E13);
    assert_eq!(out.allocations, vec![pos(11, 100), pos(10, 0)]);
}

#[test]
fn tie_goes_to_first() {
    let initial = vec![pos(10, 0), pos(11, 0)];
    let silos = vec![paused_silo(10_000_000_000_000), paused_silo(10_000_000_000_000)];
    let strats = vec![strat(0, 1_000_000), strat(0, 1_000_000)];
    let out = evaluate(2, &u(0), &u(100), &initial, &silos, &strats).unwrap();
    assert!(out.success);
    // both chunks land in silo 0; deposits come out in reverse input order
    assert_eq!(out.allocations, vec![pos(11, 0), pos(10, 100)]);
}

#[test]
fn equal_apr_rejected() {
    let initial = vec![pos(10, 50), pos(11, 50)];
    let silos = vec![paused_silo(10_000_000_000_000), paused_silo(10_000_000_000_000)];
    let strats = vec![strat(50, 1_000_000), strat(50, 1_000_000)];
    let out = evaluate(1, &u(100), &u(200), &initial, &silos, &strats).unwrap();
    assert!(!out.success);
    assert!(out.allocations.is_empty());
    assert_eq!(out.new_apr, APR_1E13);
    assert_eq!(out.current_apr, APR_1E13);
}

#[test]
fn last_chunk_correction() {
    let initial = vec![pos(10, 0), pos(11, 0)];
    let silos = vec![paused_silo(20_000_000_000_000), paused_silo(10_000_000_000_000)];
    let strats = vec![strat(0, 1_000_000), strat(0, 1_000_000)];
    // c = 3 over an increment of 10: chunks of 3, 3, 4
    let out = evaluate(3, &u(0), &u(10), &initial, &silos, &strats).unwrap();
    assert!(out.success);
    let total: u64 = out.allocations.iter().map(|p| p.debt.limb0).sum();
    assert_eq!(total, 10);
    assert_eq!(out.allocations, vec![pos(11, 0), pos(10, 10)]);
}

#[test]
fn rerun_on_own_output_is_no_op() {
    let initial = vec![pos(10, 0), pos(11, 0)];
    let silos = vec![paused_silo(20_000_000_000_000), paused_silo(10_000_000_000_000)];
    let strats = vec![strat(0, 1_000_000), strat(0, 1_000_000)];
    let first = evaluate(1, &u(0), &u(100), &initial, &silos, &strats).unwrap();
    assert!(first.success);
    let again = evaluate(1, &u(100), &u(100), &first.allocations, &silos, &strats).unwrap();
    assert!(!again.success);
    assert!(again.allocations.is_empty());
    assert_eq!(again.new_apr, 0);
    assert_eq!(again.current_apr, 0);
}

#[test]
fn swapped_silos_permute_output() {
    let silos = vec![paused_silo(20_000_000_000_000), paused_silo(10_000_000_000_000)];
    let strats = vec![strat(0, 1_000_000), strat(0, 1_000_000)];
    let plain = evaluate(
        1,
        &u(0),
        &u(100),
        &vec![pos(10, 0), pos(11, 0)],
        &silos,
        &strats,
    )
    .unwrap();
    let swapped = evaluate(
        1,
        &u(0),
        &u(100),
        &vec![pos(11, 0), pos(10, 0)],
        &vec![paused_silo(10_000_000_000_000), paused_silo(20_000_000_000_000)],
        &strats,
    )
    .unwrap();
    assert_eq!(plain.new_apr, swapped.new_apr);
    assert_eq!(plain.current_apr, swapped.current_apr);
    assert_eq!(plain.success, swapped.success);
    // the winning silo is the same market, now at the other index
    assert_eq!(swapped.allocations, vec![pos(10, 100), pos(11, 0)]);
}

#[test]
fn withdraws_precede_deposits() {
    let initial = vec![pos(20, 10), pos(21, 0), pos(22, 30)];
    let silos = vec![
        paused_silo(10_000_000_000_000),
        paused_silo(20_000_000_000_000),
        paused_silo(10_000_000_000_000),
    ];
    let strats = vec![strat(50, 1_000_000), strat(0, 1_000_000), strat(30, 1_000_000)];
    let out = evaluate(1, &u(40), &u(50), &initial, &silos, &strats).unwrap();
    assert!(out.success);
    // silo 0 is the only withdraw; deposits follow in reverse input order
    assert_eq!(out.allocations, vec![pos(20, 10), pos(22, 30), pos(21, 10)]);
}

#[test]
fn reorder_is_a_permutation() {
    let raw = vec![pos(1, 5), pos(2, 9), pos(3, 1), pos(4, 7)];
    let strats = vec![strat(8, 100), strat(2, 100), strat(4, 100), strat(7, 100)];
    let out = reorder_positions(&raw, &strats);
    assert_eq!(out.len(), raw.len());
    for p in &raw {
        assert_eq!(
            out.iter().filter(|q| **q == *p).count(),
            raw.iter().filter(|q| **q == *p).count()
        );
    }
    // withdraws (0 and 2) first in input order, deposits (1 and 3) reversed
    assert_eq!(out, vec![pos(1, 5), pos(3, 1), pos(4, 7), pos(2, 9)]);
}

#[test]
fn rate_decays_below_target_band() {
    let silo = live_silo(100, 50);
    let r = get_new_rate(&u(1000), &u(20), &silo).unwrap();
    assert_eq!(r.1, 4_000_000_000_000);
    assert_eq!(r.0, 880_000_000_000);
}

#[test]
fn rate_grows_above_target_band() {
    let silo = live_silo(100, 50);
    let r = get_new_rate(&u(1000), &u(80), &silo).unwrap();
    assert_eq!(r.1, 6_250_000_000_000);
    assert_eq!(r.0, 5_020_000_000_000);
}

#[test]
fn rate_unchanged_inside_band() {
    let silo = live_silo(100, 50);
    let r = get_new_rate(&u(1000), &u(45), &silo).unwrap();
    assert_eq!(r.1, 5_000_000_000_000);
    assert_eq!(r.0, 2_305_000_000_000);
}

#[test]
fn apr_of_live_silo_after_deposit() {
    let silo = live_silo(100, 50);
    let delta = SignedAmount { negative: false, magnitude: u(10) };
    // asset 110, utilization 45, per-second rate 2.305e12, annualized
    let apr = apr_after_debt_change(&silo, &delta).unwrap();
    assert_eq!(apr, u(7_273_877));
}

#[test]
fn apr_of_paused_silo_ignores_delta() {
    let silo = paused_silo(20_000_000_000_000);
    let up = SignedAmount { negative: false, magnitude: u(12345) };
    let down = SignedAmount { negative: true, magnitude: u(999) };
    assert_eq!(apr_after_debt_change(&silo, &up).unwrap(), u(APR_2E13));
    assert_eq!(apr_after_debt_change(&silo, &down).unwrap(), u(APR_2E13));
}

#[test]
fn zero_chunk_count_faults() {
    let initial = vec![pos(10, 0)];
    let silos = vec![paused_silo(10_000_000_000_000)];
    let strats = vec![strat(0, 1_000_000)];
    assert!(evaluate(0, &u(0), &u(100), &initial, &silos, &strats).is_none());
}

#[test]
fn shrinking_available_amount_faults() {
    let initial = vec![pos(10, 0)];
    let silos = vec![paused_silo(10_000_000_000_000)];
    let strats = vec![strat(0, 1_000_000)];
    assert!(evaluate(1, &u(200), &u(100), &initial, &silos, &strats).is_none());
}

#[test]
fn exhausted_caps_fault() {
    let initial = vec![pos(10, 0), pos(11, 0)];
    let silos = vec![paused_silo(10_000_000_000_000), paused_silo(20_000_000_000_000)];
    let strats = vec![strat(0, 5), strat(0, 5)];
    assert!(evaluate(1, &u(0), &u(10), &initial, &silos, &strats).is_none());
}

#[test]
fn annualization_overflow_faults() {
    let huge = Uint256 { limb0: 0, limb1: 0, limb2: 0, limb3: u64::MAX };
    let mut silo = paused_silo(0);
    silo.rate_per_sec = huge;
    let initial = vec![pos(10, 0)];
    let strats = vec![strat(0, 1_000_000)];
    assert!(evaluate(1, &u(0), &u(10), &initial, &vec![silo], &strats).is_none());
}

#[test]
fn negative_asset_faults() {
    // the delta drives total_asset below zero: 5 + (10 - 100) < 0
    let silo = live_silo(5, 3);
    let initial = vec![pos(10, 0)];
    let strats = vec![strat(100, 1_000_000)];
    assert!(evaluate(1, &u(0), &u(10), &initial, &vec![silo], &strats).is_none());
}

#[test]
fn allocation_keeps_input_order_before_reordering() {
    // raw allocator output through get_optimal_allocation equals the
    // reordered plan; on an all-deposit run the order is fully reversed
    let initial = vec![pos(1, 1), pos(2, 2), pos(3, 3)];
    let silos = vec![
        paused_silo(10_000_000_000_000),
        paused_silo(10_000_000_000_000),
        paused_silo(10_000_000_000_000),
    ];
    let strats = vec![strat(0, 100), strat(0, 100), strat(0, 100)];
    let out = get_optimal_allocation(2, &u(6), &u(16), &initial, &silos, &strats).unwrap();
    assert_eq!(out, vec![pos(3, 3), pos(2, 2), pos(1, 11)]);
}

#[test]
fn blended_aprs_weigh_by_debt() {
    let initial = vec![pos(20, 10), pos(21, 0), pos(22, 30)];
    let silos = vec![
        paused_silo(10_000_000_000_000),
        paused_silo(20_000_000_000_000),
        paused_silo(10_000_000_000_000),
    ];
    let strats = vec![strat(50, 1_000_000), strat(0, 1_000_000), strat(30, 1_000_000)];
    let optimal = vec![pos(20, 10), pos(22, 30), pos(21, 10)];
    let (current, new) = get_current_and_new_apr(&initial, &silos, &strats, &optimal).unwrap();
    assert_eq!(current, APR_1E13);
    // (31556952·40 + 63113904·10) / 50
    assert_eq!(new, 37_868_342);
}

#[test]
fn unknown_strategy_stops_new_apr_accumulation() {
    let initial = vec![pos(20, 10), pos(21, 20)];
    let silos = vec![paused_silo(10_000_000_000_000), paused_silo(10_000_000_000_000)];
    let strats = vec![strat(10, 1_000_000), strat(20, 1_000_000)];
    // the second entry's strategy is unknown: it and everything after is ignored
    let optimal = vec![pos(21, 20), pos(99, 10)];
    let (current, new) = get_current_and_new_apr(&initial, &silos, &strats, &optimal).unwrap();
    assert_eq!(current, APR_1E13);
    assert_eq!(new, APR_1E13);
}
