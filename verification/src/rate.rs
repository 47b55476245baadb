//! The interest-rate kernel.
//!
//! Given a silo's parameters, a hypothetical utilization and the elapsed
//! time, the kernel first lets the full-utilization ceiling decay or grow
//! towards its target band and clamps it, then evaluates the piecewise-linear
//! rate curve at the utilization.  [`apr_after_debt_change`] wraps the kernel
//! to produce an annualized rate for a silo under a signed debt delta.
//!
//! Every function returns `None` exactly on the fatal faults of the
//! specification: a 256-bit overflow, a division by zero, a negative signed
//! intermediate, or a narrowing that would truncate.  The `*_ok` spec
//! functions characterize fault-freedom; the value functions give the result
//! as plain integer arithmetic.

use vstd::prelude::*;
use crate::num::{
    pow2_64, pow2_256, u256_checked_add, u256_checked_div, u256_checked_mul, u256_checked_sub,
    SignedAmount, Uint256,
};
use crate::params::{SiloRateParams, SiloRateParamsV};

verus! {

pub open spec fn e18() -> nat {
    1000000000000000000
}

pub open spec fn e36() -> nat {
    1000000000000000000000000000000000000nat
}

pub open spec fn e13() -> nat {
    10000000000000
}

/// Seconds of a Julian year, the annualization constant.
pub open spec fn seconds_per_year() -> nat {
    31556952
}

fn e18_u256() -> (r: Uint256)
    ensures
        r.val() == e18(),
{
    Uint256 { limb0: 0xde0b_6b3a_7640_000u64, limb1: 0, limb2: 0, limb3: 0 }
}

fn e36_u256() -> (r: Uint256)
    ensures
        r.val() == e36(),
{
    Uint256 { limb0: 0xb34b_9f10_0000_0000u64, limb1: 0xc0_97ce_7bc9_0715u64, limb2: 0, limb3: 0 }
}

fn e13_u256() -> (r: Uint256)
    ensures
        r.val() == e13(),
{
    Uint256 { limb0: 0x918_4e72_a000u64, limb1: 0, limb2: 0, limb3: 0 }
}

fn spy_u256() -> (r: Uint256)
    ensures
        r.val() == seconds_per_year(),
{
    Uint256 { limb0: 31556952u64, limb1: 0, limb2: 0, limb3: 0 }
}

/// The full-utilization ceiling before clamping: decays below the target
/// band, grows above it, and is kept as-is inside the band.
pub open spec fn full_util_unclamped(p: SiloRateParamsV, dt: nat, u: nat) -> int {
    if u < p.min_target_util {
        let du = (p.min_target_util - u) * e18() / (p.min_target_util as int);
        let growth = p.rate_half_life * e36() + du * du * dt;
        (p.full_utilization_rate * (p.rate_half_life * e36())) as int / growth
    } else if u > p.max_target_util {
        let du = (u - p.max_target_util) * e18() / (p.util_prec - p.max_target_util);
        let growth = p.rate_half_life * e36() + du * du * dt;
        p.full_utilization_rate * growth / ((p.rate_half_life * e36()) as int)
    } else {
        p.full_utilization_rate as int
    }
}

/// The new full-utilization ceiling, clamped to
/// `[min_full_util_rate, max_full_util_rate]`.
pub open spec fn full_util_clamped(p: SiloRateParamsV, dt: nat, u: nat) -> int {
    let f = full_util_unclamped(p, dt, u);
    if f > p.max_full_util_rate {
        p.max_full_util_rate as int
    } else if f < p.min_full_util_rate {
        p.min_full_util_rate as int
    } else {
        f
    }
}

/// Fault-freedom of the ceiling update: every 256-bit intermediate fits, no
/// divisor is zero, and the clamped result fits in 64 bits.
pub open spec fn full_util_ok(p: SiloRateParamsV, dt: nat, u: nat) -> bool {
    let branch_ok = if u < p.min_target_util {
        let du = (p.min_target_util - u) * e18() / (p.min_target_util as int);
        let growth = p.rate_half_life * e36() + du * du * dt;
        &&& (p.min_target_util - u) * e18() < pow2_256()
        &&& p.rate_half_life * e36() < pow2_256()
        &&& du * du < pow2_256()
        &&& du * du * dt < pow2_256()
        &&& growth < pow2_256()
        &&& growth > 0
        &&& p.full_utilization_rate * (p.rate_half_life * e36()) < pow2_256()
    } else if u > p.max_target_util {
        let du = (u - p.max_target_util) * e18() / (p.util_prec - p.max_target_util);
        let growth = p.rate_half_life * e36() + du * du * dt;
        &&& p.util_prec > p.max_target_util
        &&& (u - p.max_target_util) * e18() < pow2_256()
        &&& p.rate_half_life * e36() < pow2_256()
        &&& du * du < pow2_256()
        &&& du * du * dt < pow2_256()
        &&& growth < pow2_256()
        &&& p.rate_half_life * e36() > 0
        &&& p.full_utilization_rate * growth < pow2_256()
    } else {
        true
    };
    branch_ok && full_util_clamped(p, dt, u) < pow2_64()
}

/// Updates the full-utilization ceiling for one silo; `None` exactly when
/// `full_util_ok` fails.
pub fn get_full_utilization_interest(delta_time: &Uint256, utilization: &Uint256, silo: &SiloRateParams) -> (r: Option<
    u64,
>)
    ensures
        full_util_ok(silo@, delta_time.val(), utilization.val()) ==> (r matches Some(v) && v
            == full_util_clamped(silo@, delta_time.val(), utilization.val())),
        !full_util_ok(silo@, delta_time.val(), utilization.val()) ==> r is None,
{
    let f_new: Uint256;
    if utilization.lt(&silo.min_target_util) {
        let diff = match u256_checked_sub(&silo.min_target_util, utilization) {
            Some(x) => x,
            None => { return None; },
        };
        let scaled = match u256_checked_mul(&diff, &e18_u256()) {
            Some(x) => x,
            None => { return None; },
        };
        let du = match u256_checked_div(&scaled, &silo.min_target_util) {
            Some(x) => x,
            None => { return None; },
        };
        let hl36 = match u256_checked_mul(&silo.rate_half_life, &e36_u256()) {
            Some(x) => x,
            None => { return None; },
        };
        let du2 = match u256_checked_mul(&du, &du) {
            Some(x) => x,
            None => { return None; },
        };
        let du2dt = match u256_checked_mul(&du2, delta_time) {
            Some(x) => x,
            None => { return None; },
        };
        let growth = match u256_checked_add(&hl36, &du2dt) {
            Some(x) => x,
            None => { return None; },
        };
        let fnum = match u256_checked_mul(&silo.full_utilization_rate, &hl36) {
            Some(x) => x,
            None => { return None; },
        };
        f_new = match u256_checked_div(&fnum, &growth) {
            Some(x) => x,
            None => { return None; },
        };
    } else if silo.max_target_util.lt(utilization) {
        let diff = match u256_checked_sub(utilization, &silo.max_target_util) {
            Some(x) => x,
            None => { return None; },
        };
        let scaled = match u256_checked_mul(&diff, &e18_u256()) {
            Some(x) => x,
            None => { return None; },
        };
        let span = match u256_checked_sub(&silo.util_prec, &silo.max_target_util) {
            Some(x) => x,
            None => { return None; },
        };
        let du = match u256_checked_div(&scaled, &span) {
            Some(x) => x,
            None => { return None; },
        };
        let hl36 = match u256_checked_mul(&silo.rate_half_life, &e36_u256()) {
            Some(x) => x,
            None => { return None; },
        };
        let du2 = match u256_checked_mul(&du, &du) {
            Some(x) => x,
            None => { return None; },
        };
        let du2dt = match u256_checked_mul(&du2, delta_time) {
            Some(x) => x,
            None => { return None; },
        };
        let growth = match u256_checked_add(&hl36, &du2dt) {
            Some(x) => x,
            None => { return None; },
        };
        let fnum = match u256_checked_mul(&silo.full_utilization_rate, &growth) {
            Some(x) => x,
            None => { return None; },
        };
        f_new = match u256_checked_div(&fnum, &hl36) {
            Some(x) => x,
            None => { return None; },
        };
    } else {
        f_new = silo.full_utilization_rate;
    }
    let clamped = if f_new.gt(&silo.max_full_util_rate) {
        silo.max_full_util_rate
    } else if f_new.lt(&silo.min_full_util_rate) {
        silo.min_full_util_rate
    } else {
        f_new
    };
    clamped.to_u64()
}

/// The rate at the vertex of the curve, derived from the updated ceiling `f`.
pub open spec fn vertex_rate(p: SiloRateParamsV, f: int) -> int {
    (f - p.zero_util_rate) * p.vertex_rate_percent / (p.rate_prec as int) + p.zero_util_rate
}

/// The per-second rate: linear from `zero_util_rate` to the vertex rate below
/// the vertex utilization, then linear from the vertex rate to the ceiling.
pub open spec fn new_rate_value(p: SiloRateParamsV, dt: nat, u: nat) -> int {
    let f = full_util_clamped(p, dt, u);
    let vi = vertex_rate(p, f);
    if u < p.vertex_utilization {
        p.zero_util_rate + u * (vi - p.zero_util_rate) / (p.vertex_utilization as int)
    } else {
        vi + (u - p.vertex_utilization) * (f - vi) / (p.util_prec - p.vertex_utilization)
    }
}

/// Fault-freedom of the full rate computation.
pub open spec fn new_rate_ok(p: SiloRateParamsV, dt: nat, u: nat) -> bool {
    let f = full_util_clamped(p, dt, u);
    let vi = vertex_rate(p, f);
    let branch_ok = if u < p.vertex_utilization {
        &&& u * (vi - p.zero_util_rate) < pow2_256()
        &&& p.zero_util_rate + u * (vi - p.zero_util_rate) / (p.vertex_utilization as int) < pow2_256()
    } else {
        &&& f >= vi
        &&& p.util_prec > p.vertex_utilization
        &&& (u - p.vertex_utilization) * (f - vi) < pow2_256()
        &&& vi + (u - p.vertex_utilization) * (f - vi) / (p.util_prec - p.vertex_utilization) < pow2_256()
    };
    &&& full_util_ok(p, dt, u)
    &&& f >= p.zero_util_rate
    &&& (f - p.zero_util_rate) * p.vertex_rate_percent < pow2_256()
    &&& p.rate_prec > 0
    &&& vi < pow2_256()
    &&& branch_ok
    &&& new_rate_value(p, dt, u) < pow2_64()
}

/// Computes the new per-second rate and the updated ceiling; `None` exactly
/// when `new_rate_ok` fails.
pub fn get_new_rate(delta_time: &Uint256, utilization: &Uint256, silo: &SiloRateParams) -> (r: Option<(u64, u64)>)
    ensures
        new_rate_ok(silo@, delta_time.val(), utilization.val()) ==> (r matches Some(v) && v.0
            == new_rate_value(silo@, delta_time.val(), utilization.val()) && v.1
            == full_util_clamped(silo@, delta_time.val(), utilization.val())),
        !new_rate_ok(silo@, delta_time.val(), utilization.val()) ==> r is None,
{
    let f64v = match get_full_utilization_interest(delta_time, utilization, silo) {
        Some(x) => x,
        None => { return None; },
    };
    let f = Uint256::from_u64(f64v);
    let fz = match u256_checked_sub(&f, &silo.zero_util_rate) {
        Some(x) => x,
        None => { return None; },
    };
    let fzp = match u256_checked_mul(&fz, &silo.vertex_rate_percent) {
        Some(x) => x,
        None => { return None; },
    };
    let q = match u256_checked_div(&fzp, &silo.rate_prec) {
        Some(x) => x,
        None => { return None; },
    };
    let vi = match u256_checked_add(&q, &silo.zero_util_rate) {
        Some(x) => x,
        None => { return None; },
    };
    let rate: Uint256;
    if utilization.lt(&silo.vertex_utilization) {
        let num = match u256_checked_mul(utilization, &q) {
            Some(x) => x,
            None => { return None; },
        };
        let slope = match u256_checked_div(&num, &silo.vertex_utilization) {
            Some(x) => x,
            None => { return None; },
        };
        rate = match u256_checked_add(&silo.zero_util_rate, &slope) {
            Some(x) => x,
            None => { return None; },
        };
    } else {
        let uv = match u256_checked_sub(utilization, &silo.vertex_utilization) {
            Some(x) => x,
            None => { return None; },
        };
        let fvi = match u256_checked_sub(&f, &vi) {
            Some(x) => x,
            None => { return None; },
        };
        let span = match u256_checked_sub(&silo.util_prec, &silo.vertex_utilization) {
            Some(x) => x,
            None => { return None; },
        };
        let num = match u256_checked_mul(&uv, &fvi) {
            Some(x) => x,
            None => { return None; },
        };
        let slope = match u256_checked_div(&num, &span) {
            Some(x) => x,
            None => { return None; },
        };
        rate = match u256_checked_add(&vi, &slope) {
            Some(x) => x,
            None => { return None; },
        };
    }
    match rate.to_u64() {
        Some(rv) => Some((rv, f64v)),
        None => None,
    }
}

/// The hypothetical utilization of a silo after a signed change of its
/// assets.
pub open spec fn apr_utilization(p: SiloRateParamsV, delta: int) -> nat {
    let asset = p.total_asset + delta;
    if asset == 0 {
        0
    } else {
        ((p.util_prec * p.total_borrow) as int / asset) as nat
    }
}

/// Annualization: per-second rate times seconds per year, rescaled.
pub open spec fn annual_of(rate: int) -> int {
    rate * seconds_per_year() / (e13() as int)
}

/// Fault-freedom of the annualized-rate computation for a debt delta.
pub open spec fn apr_ok(p: SiloRateParamsV, delta: int) -> bool {
    if delta == 0 || p.is_interest_paused {
        p.rate_per_sec * seconds_per_year() < pow2_256()
    } else {
        let asset = p.total_asset + delta;
        &&& asset >= 0
        &&& asset < pow2_256()
        &&& p.cur_timestamp >= p.last_timestamp
        &&& (asset > 0 ==> p.util_prec * p.total_borrow < pow2_256())
        &&& new_rate_ok(p, (p.cur_timestamp - p.last_timestamp) as nat, apr_utilization(p, delta))
    }
}

/// The annualized rate of a silo after a signed debt delta.  With a zero
/// delta or paused interest it is the stored rate annualized; otherwise the
/// kernel runs at the hypothetical utilization.
pub open spec fn apr_value(p: SiloRateParamsV, delta: int) -> int {
    if delta == 0 || p.is_interest_paused {
        annual_of(p.rate_per_sec as int)
    } else {
        annual_of(
            new_rate_value(p, (p.cur_timestamp - p.last_timestamp) as nat, apr_utilization(p, delta)),
        )
    }
}

/// Annualized rate for `silo` under the signed debt change `delta`; `None`
/// exactly when `apr_ok` fails.
pub fn apr_after_debt_change(silo: &SiloRateParams, delta: &SignedAmount) -> (r: Option<Uint256>)
    ensures
        apr_ok(silo@, delta.sval()) ==> (r matches Some(v) && v.val() == apr_value(silo@, delta.sval())),
        !apr_ok(silo@, delta.sval()) ==> r is None,
{
    if delta.is_zero() || silo.is_interest_paused {
        let m = match u256_checked_mul(&silo.rate_per_sec, &spy_u256()) {
            Some(x) => x,
            None => { return None; },
        };
        let a = match u256_checked_div(&m, &e13_u256()) {
            Some(x) => x,
            None => { return None; },
        };
        return Some(a);
    }
    let asset = if delta.negative {
        match u256_checked_sub(&silo.total_asset, &delta.magnitude) {
            Some(x) => x,
            None => { return None; },
        }
    } else {
        match u256_checked_add(&silo.total_asset, &delta.magnitude) {
            Some(x) => x,
            None => { return None; },
        }
    };
    let delta_time = match u256_checked_sub(&silo.cur_timestamp, &silo.last_timestamp) {
        Some(x) => x,
        None => { return None; },
    };
    let utilization = if asset.is_zero() {
        Uint256::zero()
    } else {
        let borrow_scaled = match u256_checked_mul(&silo.util_prec, &silo.total_borrow) {
            Some(x) => x,
            None => { return None; },
        };
        match u256_checked_div(&borrow_scaled, &asset) {
            Some(x) => x,
            None => { return None; },
        }
    };
    let rate = match get_new_rate(&delta_time, &utilization, silo) {
        Some(t) => t.0,
        None => { return None; },
    };
    let m = match u256_checked_mul(&Uint256::from_u64(rate), &spy_u256()) {
        Some(x) => x,
        None => { return None; },
    };
    let a = match u256_checked_div(&m, &e13_u256()) {
        Some(x) => x,
        None => { return None; },
    };
    Some(a)
}

} // verus!
