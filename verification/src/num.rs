//! The 256-bit arithmetic substrate.
//!
//! A [`Uint256`] holds an unsigned 256-bit integer as four 64-bit limbs,
//! least significant first.  The arithmetic that the rate kernel and the
//! allocator need (checked addition, subtraction, multiplication and floor
//! division) is delegated to `alloy_primitives::U256`, whose limb layout is
//! identical; comparisons and narrowing are implemented and verified here.
//! [`SignedAmount`] is a sign-and-magnitude view of a signed 256-bit value,
//! used for debt deltas.

use vstd::prelude::*;

verus! {

pub open spec fn pow2_64() -> nat {
    0x1_0000_0000_0000_0000
}

pub open spec fn pow2_128() -> nat {
    340282366920938463463374607431768211456nat
}

pub open spec fn pow2_192() -> nat {
    6277101735386680763835789423207666416102355444464034512896nat
}

pub open spec fn pow2_256() -> nat {
    115792089237316195423570985008687907853269984665640564039457584007913129639936nat
}

/// An unsigned 256-bit integer, four 64-bit limbs, least significant first.
#[derive(Clone, Copy, PartialEq, Eq, Structural, Debug)]
pub struct Uint256 {
    pub limb0: u64,
    pub limb1: u64,
    pub limb2: u64,
    pub limb3: u64,
}

impl Uint256 {
    /// The mathematical value of the four limbs.
    pub open spec fn val(self) -> nat {
        (self.limb0 + self.limb1 * pow2_64() + self.limb2 * pow2_128() + self.limb3 * pow2_192()) as nat
    }

    pub fn from_u64(x: u64) -> (r: Uint256)
        ensures
            r.val() == x,
    {
        Uint256 { limb0: x, limb1: 0, limb2: 0, limb3: 0 }
    }

    pub fn zero() -> (r: Uint256)
        ensures
            r.val() == 0,
    {
        Uint256 { limb0: 0, limb1: 0, limb2: 0, limb3: 0 }
    }

    pub fn is_zero(&self) -> (r: bool)
        ensures
            r == (self.val() == 0),
    {
        self.limb0 == 0 && self.limb1 == 0 && self.limb2 == 0 && self.limb3 == 0
    }

    /// Narrows to 64 bits; `None` exactly when the value does not fit.
    pub fn to_u64(&self) -> (r: Option<u64>)
        ensures
            self.val() < pow2_64() ==> (r matches Some(v) && v == self.val()),
            self.val() >= pow2_64() ==> r is None,
    {
        if self.limb1 == 0 && self.limb2 == 0 && self.limb3 == 0 {
            Some(self.limb0)
        } else {
            None
        }
    }

    pub fn lt(&self, other: &Uint256) -> (r: bool)
        ensures
            r == (self.val() < other.val()),
    {
        if self.limb3 != other.limb3 {
            self.limb3 < other.limb3
        } else if self.limb2 != other.limb2 {
            self.limb2 < other.limb2
        } else if self.limb1 != other.limb1 {
            self.limb1 < other.limb1
        } else {
            self.limb0 < other.limb0
        }
    }

    pub fn gt(&self, other: &Uint256) -> (r: bool)
        ensures
            r == (self.val() > other.val()),
    {
        other.lt(self)
    }

    pub fn eq_val(&self, other: &Uint256) -> (r: bool)
        ensures
            r == (self.val() == other.val()),
    {
        !self.lt(other) && !other.lt(self)
    }
}

/// Relies on `alloy_primitives::U256::checked_add` (ruint): 256-bit addition
/// over the same little-endian limb layout, `None` exactly on overflow.
#[verifier::external_body]
pub(crate) fn u256_checked_add(a: &Uint256, b: &Uint256) -> (r: Option<Uint256>)
    ensures
        r is Some <==> a.val() + b.val() < pow2_256(),
        r is Some ==> r->Some_0.val() == a.val() + b.val(),
{
    let x = alloy_primitives::U256::from_limbs([a.limb0, a.limb1, a.limb2, a.limb3]);
    let y = alloy_primitives::U256::from_limbs([b.limb0, b.limb1, b.limb2, b.limb3]);
    match x.checked_add(y) {
        Some(z) => {
            let l = z.into_limbs();
            Some(Uint256 { limb0: l[0], limb1: l[1], limb2: l[2], limb3: l[3] })
        },
        None => None,
    }
}

/// Relies on `alloy_primitives::U256::checked_sub` (ruint): 256-bit
/// subtraction, `None` exactly when the difference would be negative.
#[verifier::external_body]
pub(crate) fn u256_checked_sub(a: &Uint256, b: &Uint256) -> (r: Option<Uint256>)
    ensures
        r is Some <==> a.val() >= b.val(),
        r is Some ==> r->Some_0.val() == a.val() - b.val(),
{
    let x = alloy_primitives::U256::from_limbs([a.limb0, a.limb1, a.limb2, a.limb3]);
    let y = alloy_primitives::U256::from_limbs([b.limb0, b.limb1, b.limb2, b.limb3]);
    match x.checked_sub(y) {
        Some(z) => {
            let l = z.into_limbs();
            Some(Uint256 { limb0: l[0], limb1: l[1], limb2: l[2], limb3: l[3] })
        },
        None => None,
    }
}

/// Relies on `alloy_primitives::U256::checked_mul` (ruint): 256-bit
/// multiplication, `None` exactly on overflow.
#[verifier::external_body]
pub(crate) fn u256_checked_mul(a: &Uint256, b: &Uint256) -> (r: Option<Uint256>)
    ensures
        r is Some <==> a.val() * b.val() < pow2_256(),
        r is Some ==> r->Some_0.val() == a.val() * b.val(),
{
    let x = alloy_primitives::U256::from_limbs([a.limb0, a.limb1, a.limb2, a.limb3]);
    let y = alloy_primitives::U256::from_limbs([b.limb0, b.limb1, b.limb2, b.limb3]);
    match x.checked_mul(y) {
        Some(z) => {
            let l = z.into_limbs();
            Some(Uint256 { limb0: l[0], limb1: l[1], limb2: l[2], limb3: l[3] })
        },
        None => None,
    }
}

/// Relies on `alloy_primitives::U256::checked_div` (ruint): 256-bit floor
/// division, `None` exactly when the divisor is zero.
#[verifier::external_body]
pub(crate) fn u256_checked_div(a: &Uint256, b: &Uint256) -> (r: Option<Uint256>)
    ensures
        r is Some <==> b.val() > 0,
        r is Some ==> r->Some_0.val() == a.val() / b.val(),
{
    let x = alloy_primitives::U256::from_limbs([a.limb0, a.limb1, a.limb2, a.limb3]);
    let y = alloy_primitives::U256::from_limbs([b.limb0, b.limb1, b.limb2, b.limb3]);
    match x.checked_div(y) {
        Some(z) => {
            let l = z.into_limbs();
            Some(Uint256 { limb0: l[0], limb1: l[1], limb2: l[2], limb3: l[3] })
        },
        None => None,
    }
}

/// Every four-limb value fits in 256 bits.
pub proof fn lemma_val_bound(x: Uint256)
    ensures
        x.val() < pow2_256(),
{
}

/// A signed 256-bit quantity as sign and magnitude; the value of a debt delta.
#[derive(Clone, Copy, PartialEq, Eq, Structural, Debug)]
pub struct SignedAmount {
    pub negative: bool,
    pub magnitude: Uint256,
}

impl SignedAmount {
    /// The mathematical value: the magnitude, negated when `negative` is set.
    pub open spec fn sval(self) -> int {
        if self.negative {
            -(self.magnitude.val() as int)
        } else {
            self.magnitude.val() as int
        }
    }

    /// The signed difference `a - b`; never faults.
    pub fn sub_of(a: &Uint256, b: &Uint256) -> (r: SignedAmount)
        ensures
            r.sval() == a.val() - b.val(),
    {
        if a.lt(b) {
            match u256_checked_sub(b, a) {
                Some(m) => SignedAmount { negative: true, magnitude: m },
                None => SignedAmount { negative: false, magnitude: *a },
            }
        } else {
            match u256_checked_sub(a, b) {
                Some(m) => SignedAmount { negative: false, magnitude: m },
                None => SignedAmount { negative: false, magnitude: *a },
            }
        }
    }

    pub fn is_zero(&self) -> (r: bool)
        ensures
            r == (self.sval() == 0),
    {
        self.magnitude.is_zero()
    }
}

} // verus!
