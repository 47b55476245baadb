//! The data model: positions, per-silo rate parameters and strategy
//! parameters, together with their mathematical views.
//!
//! Every 256-bit field is a [`Uint256`]; a view struct carries the same
//! fields as unbounded naturals so that contracts can be stated over plain
//! arithmetic.

use vstd::prelude::*;
use crate::num::Uint256;

verus! {

/// A 20-byte strategy address as a 160-bit value, split into plain words,
/// least significant first (64 + 64 + 32 bits).
#[derive(Clone, Copy, PartialEq, Eq, Structural, Debug)]
pub struct Address {
    pub lo: u64,
    pub mid: u64,
    pub hi: u32,
}

impl Address {
    /// The 160-bit value of the address bytes.
    pub open spec fn val(self) -> nat {
        (self.lo + self.mid * 0x1_0000_0000_0000_0000
            + self.hi * 340282366920938463463374607431768211456nat) as nat
    }

    pub fn from_u64(x: u64) -> (r: Address)
        ensures
            r.val() == x,
    {
        Address { lo: x, mid: 0, hi: 0 }
    }

    pub fn eq_val(&self, other: &Address) -> (r: bool)
        ensures
            r == (self.val() == other.val()),
    {
        self.lo == other.lo && self.mid == other.mid && self.hi == other.hi
    }
}

/// A (strategy, debt) pair; the unit the allocator reorders and emits.
#[derive(Clone, Copy, PartialEq, Eq, Structural, Debug)]
pub struct Position {
    pub strategy: Address,
    pub debt: Uint256,
}

/// The view of a position: address value and debt as naturals.
pub struct PositionV {
    pub strategy: nat,
    pub debt: nat,
}

impl View for Position {
    type V = PositionV;

    open spec fn view(&self) -> PositionV {
        PositionV { strategy: self.strategy.val(), debt: self.debt.val() }
    }
}

/// Per-strategy accounting data; the core consults only `current_debt` and
/// `max_debt`.
#[derive(Clone, Copy, PartialEq, Eq, Structural, Debug)]
pub struct StrategyParams {
    pub activation: Uint256,
    pub last_report: Uint256,
    pub current_debt: Uint256,
    pub max_debt: Uint256,
}

pub struct StrategyParamsV {
    pub activation: nat,
    pub last_report: nat,
    pub current_debt: nat,
    pub max_debt: nat,
}

impl View for StrategyParams {
    type V = StrategyParamsV;

    open spec fn view(&self) -> StrategyParamsV {
        StrategyParamsV {
            activation: self.activation.val(),
            last_report: self.last_report.val(),
            current_debt: self.current_debt.val(),
            max_debt: self.max_debt.val(),
        }
    }
}

/// A silo's interest-rate parameters: the variable-rate curve with a decaying
/// full-utilization ceiling.
#[derive(Clone, Copy, PartialEq, Eq, Structural, Debug)]
pub struct SiloRateParams {
    pub cur_timestamp: Uint256,
    pub last_timestamp: Uint256,
    pub rate_per_sec: Uint256,
    pub full_utilization_rate: Uint256,
    pub total_asset: Uint256,
    pub total_borrow: Uint256,
    pub util_prec: Uint256,
    pub min_target_util: Uint256,
    pub max_target_util: Uint256,
    pub vertex_utilization: Uint256,
    pub min_full_util_rate: Uint256,
    pub max_full_util_rate: Uint256,
    pub zero_util_rate: Uint256,
    pub rate_half_life: Uint256,
    pub vertex_rate_percent: Uint256,
    pub rate_prec: Uint256,
    pub is_interest_paused: bool,
}

pub struct SiloRateParamsV {
    pub cur_timestamp: nat,
    pub last_timestamp: nat,
    pub rate_per_sec: nat,
    pub full_utilization_rate: nat,
    pub total_asset: nat,
    pub total_borrow: nat,
    pub util_prec: nat,
    pub min_target_util: nat,
    pub max_target_util: nat,
    pub vertex_utilization: nat,
    pub min_full_util_rate: nat,
    pub max_full_util_rate: nat,
    pub zero_util_rate: nat,
    pub rate_half_life: nat,
    pub vertex_rate_percent: nat,
    pub rate_prec: nat,
    pub is_interest_paused: bool,
}

impl View for SiloRateParams {
    type V = SiloRateParamsV;

    open spec fn view(&self) -> SiloRateParamsV {
        SiloRateParamsV {
            cur_timestamp: self.cur_timestamp.val(),
            last_timestamp: self.last_timestamp.val(),
            rate_per_sec: self.rate_per_sec.val(),
            full_utilization_rate: self.full_utilization_rate.val(),
            total_asset: self.total_asset.val(),
            total_borrow: self.total_borrow.val(),
            util_prec: self.util_prec.val(),
            min_target_util: self.min_target_util.val(),
            max_target_util: self.max_target_util.val(),
            vertex_utilization: self.vertex_utilization.val(),
            min_full_util_rate: self.min_full_util_rate.val(),
            max_full_util_rate: self.max_full_util_rate.val(),
            zero_util_rate: self.zero_util_rate.val(),
            rate_half_life: self.rate_half_life.val(),
            vertex_rate_percent: self.vertex_rate_percent.val(),
            rate_prec: self.rate_prec.val(),
            is_interest_paused: self.is_interest_paused,
        }
    }
}

/// The views of a sequence of positions.
pub open spec fn position_views(s: Seq<Position>) -> Seq<PositionV> {
    Seq::new(s.len(), |i: int| s[i]@)
}

/// The views of a sequence of silo rate parameters.
pub open spec fn silo_views(s: Seq<SiloRateParams>) -> Seq<SiloRateParamsV> {
    Seq::new(s.len(), |i: int| s[i]@)
}

/// The views of a sequence of strategy parameters.
pub open spec fn strategy_views(s: Seq<StrategyParams>) -> Seq<StrategyParamsV> {
    Seq::new(s.len(), |i: int| s[i]@)
}

} // verus!
