//! The byte-level boundary: the fixed tuple schema of the input buffer and
//! of the committed journal, big-endian 32-byte words with head/tail layout.
//!
//! The format is stated constructively — [`word_at`] reads a word as the
//! big-endian value of 32 bytes, [`word_bytes`] writes one — and the decoder
//! and encoder are verified against those statements byte for byte.

use vstd::prelude::*;
use vstd::arithmetic::div_mod::{lemma_div_by_multiple, lemma_div_is_ordered, lemma_fundamental_div_mod,
    lemma_fundamental_div_mod_converse, lemma_mod_bound};
use vstd::arithmetic::mul::lemma_mul_inequality;
use crate::num::{pow2_64, pow2_128, pow2_192, u256_checked_div, u256_checked_sub, Uint256};
use crate::params::{position_views, silo_views, strategy_views, Address, Position, PositionV,
    SiloRateParams, SiloRateParamsV, StrategyParams, StrategyParamsV};
use crate::blended::{evaluate, spec_evaluate, AllocationOutputs, AllocationOutputsV};

verus! {

/// `256^n`, the number of values of `n` bytes.
pub open spec fn pow256(n: nat) -> nat
    decreases n,
{
    if n == 0 {
        1
    } else {
        (256 * pow256((n - 1) as nat)) as nat
    }
}

/// The big-endian value of a byte sequence.
pub open spec fn be_val(s: Seq<u8>) -> nat
    decreases s.len(),
{
    if s.len() == 0 {
        0
    } else {
        (be_val(s.drop_last()) * 256 + s.last()) as nat
    }
}

/// The value of the 32-byte word at offset `p`.
pub open spec fn word_at(b: Seq<u8>, p: int) -> nat {
    be_val(b.subrange(p, p + 32))
}

/// The `n` big-endian bytes of `v` (the low `n` bytes of its value).
pub open spec fn be_bytes(v: nat, n: nat) -> Seq<u8>
    decreases n,
{
    if n == 0 {
        Seq::empty()
    } else {
        be_bytes(v / 256, (n - 1) as nat).push((v % 256) as u8)
    }
}

/// The 32 bytes of a 256-bit word value, written limb by limb.
pub open spec fn word_bytes(v: nat) -> Seq<u8> {
    be_bytes(v / pow2_192(), 8) + be_bytes(v / pow2_128() % pow2_64(), 8) + be_bytes(
        v / pow2_64() % pow2_64(),
        8,
    ) + be_bytes(v % pow2_64(), 8)
}

proof fn lemma_be_val_concat(a: Seq<u8>, b: Seq<u8>)
    ensures
        be_val(a + b) == be_val(a) * pow256(b.len()) + be_val(b),
    decreases b.len(),
{
    if b.len() == 0 {
        assert(a + b =~= a);
        assert(pow256(0) == 1);
        assert(be_val(b) == 0);
        assert(be_val(a) * pow256(b.len()) == be_val(a)) by (nonlinear_arith)
            requires
                pow256(b.len()) == 1,
        ;
    } else {
        let bdl = b.drop_last();
        assert((a + b).drop_last() =~= a + bdl);
        assert((a + b).last() == b.last());
        assert(be_val(a + b) == be_val(a + bdl) * 256 + b.last());
        lemma_be_val_concat(a, bdl);
        let x = be_val(a);
        let y = be_val(bdl);
        let p = pow256(bdl.len());
        assert(be_val(a + b) == (x * p + y) * 256 + b.last());
        assert(pow256(b.len()) == 256 * p);
        assert((x * p + y) * 256 == x * (256 * p) + y * 256) by (nonlinear_arith);
        assert(x * (256 * p) == x * pow256(b.len()));
        assert(be_val(b) == y * 256 + b.last());
        assert(be_val(a + b) == x * pow256(b.len()) + be_val(b));
    }
}

/// The four limbs are the base-2^64 digits of the value.
proof fn lemma_limb_digits(x: Uint256)
    ensures
        x.val() / pow2_192() == x.limb3,
        x.val() / pow2_128() % pow2_64() == x.limb2,
        x.val() / pow2_64() % pow2_64() == x.limb1,
        x.val() % pow2_64() == x.limb0,
{
    let v = x.val() as int;
    let l0 = x.limb0 as int;
    let l1 = x.limb1 as int;
    let l2 = x.limb2 as int;
    let l3 = x.limb3 as int;
    let b1 = pow2_64() as int;
    let b2 = pow2_128() as int;
    let b3 = pow2_192() as int;
    assert(v == l3 * b3 + (l0 + l1 * b1 + l2 * b2));
    lemma_fundamental_div_mod_converse(v, b3, l3, l0 + l1 * b1 + l2 * b2);
    assert(v == (l2 + l3 * b1) * b2 + (l0 + l1 * b1)) by (nonlinear_arith)
        requires
            v == l0 + l1 * b1 + l2 * b2 + l3 * b3,
            b3 == b1 * b2,
    ;
    lemma_fundamental_div_mod_converse(v, b2, l2 + l3 * b1, l0 + l1 * b1);
    lemma_fundamental_div_mod_converse(l2 + l3 * b1, b1, l3, l2);
    assert(v == (l1 + l2 * b1 + l3 * b2) * b1 + l0) by (nonlinear_arith)
        requires
            v == l0 + l1 * b1 + l2 * b2 + l3 * b3,
            b2 == b1 * b1,
            b3 == b1 * b2,
    ;
    lemma_fundamental_div_mod_converse(v, b1, l1 + l2 * b1 + l3 * b2, l0);
    lemma_fundamental_div_mod_converse(l1 + l2 * b1 + l3 * b2, b1, l2 + l3 * b1, l1);
}

proof fn lemma_pow256_8()
    ensures
        pow256(8) == pow2_64(),
        pow256(24) == pow2_192(),
{
    assert(pow256(0) == 1);
    assert(pow256(1) == 256);
    assert(pow256(2) == 0x1_0000);
    assert(pow256(3) == 0x100_0000);
    assert(pow256(4) == 0x1_0000_0000);
    assert(pow256(5) == 0x100_0000_0000);
    assert(pow256(6) == 0x1_0000_0000_0000);
    assert(pow256(7) == 0x100_0000_0000_0000);
    assert(pow256(8) == 0x1_0000_0000_0000_0000);
    assert(pow256(9) == pow256(8) * 256);
    assert(pow256(10) == pow256(9) * 256);
    assert(pow256(11) == pow256(10) * 256);
    assert(pow256(12) == pow256(11) * 256);
    assert(pow256(13) == pow256(12) * 256);
    assert(pow256(14) == pow256(13) * 256);
    assert(pow256(15) == pow256(14) * 256);
    assert(pow256(16) == pow256(15) * 256);
    assert(pow256(17) == pow256(16) * 256);
    assert(pow256(18) == pow256(17) * 256);
    assert(pow256(19) == pow256(18) * 256);
    assert(pow256(20) == pow256(19) * 256);
    assert(pow256(21) == pow256(20) * 256);
    assert(pow256(22) == pow256(21) * 256);
    assert(pow256(23) == pow256(22) * 256);
    assert(pow256(24) == pow256(23) * 256);
}

/// Reads the 8 bytes at `pos` as a big-endian 64-bit value.
#[verifier::loop_isolation(false)]
fn read_u64_be(bytes: &Vec<u8>, pos: usize) -> (r: u64)
    requires
        pos + 8 <= bytes@.len(),
    ensures
        r == be_val(bytes@.subrange(pos as int, pos + 8)),
{
    let total = bytes.len();
    let mut acc: u64 = 0;
    let mut k: usize = 0;
    while k < 8
        invariant
            k <= 8,
            acc == be_val(bytes@.subrange(pos as int, pos + k)),
            acc < pow256(k as nat),
        decreases 8 - k,
    {
        let b0 = bytes[pos + k];
        proof {
            lemma_pow256_8();
            lemma_pow256_monotone(k as nat, 7);
            let s1 = bytes@.subrange(pos as int, pos + k + 1);
            let s = bytes@.subrange(pos as int, pos + k);
            assert(s1 =~= s.push(bytes@[pos + k]));
            assert(s.push(bytes@[pos + k]).drop_last() == s);
            assert(be_val(s.push(bytes@[pos + k])) == be_val(s) * 256 + b0);
            assert(be_val(s1) == be_val(s) * 256 + b0);
        }
        acc = acc * 256 + b0 as u64;
        k += 1;
    }
    acc
}

proof fn lemma_pow256_monotone(m: nat, n: nat)
    requires
        m <= n,
    ensures
        pow256(m) <= pow256(n),
    decreases n,
{
    if m < n {
        lemma_pow256_monotone(m, (n - 1) as nat);
    }
}

/// Reads the 32-byte word at `pos` as a 256-bit value.
fn read_word(bytes: &Vec<u8>, pos: usize) -> (r: Uint256)
    requires
        pos + 32 <= bytes@.len(),
    ensures
        r.val() == word_at(bytes@, pos as int),
{
    let total = bytes.len();
    let l3 = read_u64_be(bytes, pos);
    let l2 = read_u64_be(bytes, pos + 8);
    let l1 = read_u64_be(bytes, pos + 16);
    let l0 = read_u64_be(bytes, pos + 24);
    let r = Uint256 { limb0: l0, limb1: l1, limb2: l2, limb3: l3 };
    proof {
        let b = bytes@;
        let p = pos as int;
        let s3 = b.subrange(p, p + 8);
        let s2 = b.subrange(p + 8, p + 16);
        let s1 = b.subrange(p + 16, p + 24);
        let s0 = b.subrange(p + 24, p + 32);
        assert(b.subrange(p, p + 32) =~= s3 + s2 + s1 + s0);
        lemma_pow256_8();
        lemma_be_val_concat(s3 + s2 + s1, s0);
        lemma_be_val_concat(s3 + s2, s1);
        lemma_be_val_concat(s3, s2);
        assert((s3 + s2 + s1 + s0).len() == 32);
        let v3 = be_val(s3);
        let v2 = be_val(s2);
        let v1 = be_val(s1);
        let v0 = be_val(s0);
        assert(be_val(s3 + s2) == v3 * pow2_64() + v2);
        assert(be_val(s3 + s2 + s1) == (v3 * pow2_64() + v2) * pow2_64() + v1);
        assert(be_val(s3 + s2 + s1 + s0) == ((v3 * pow2_64() + v2) * pow2_64() + v1) * pow2_64() + v0);
        assert(((v3 * pow2_64() + v2) * pow2_64() + v1) * pow2_64() + v0 == v3 * pow2_192() + v2
            * pow2_128() + v1 * pow2_64() + v0) by (nonlinear_arith)
            requires
                pow2_128() == pow2_64() * pow2_64(),
                pow2_192() == pow2_64() * pow2_128(),
        ;
        assert(pow2_128() == pow2_64() * pow2_64());
        assert(pow2_192() == pow2_64() * pow2_128());
    }
    r
}

/// Appends the `n` big-endian bytes of `v`.
fn push_be_u64(out: &mut Vec<u8>, v: u64, n: u8)
    ensures
        final(out)@ == old(out)@ + be_bytes(v as nat, n as nat),
    decreases n,
{
    if n == 0 {
        proof {
            assert(old(out)@ + be_bytes(v as nat, 0) =~= old(out)@);
        }
    } else {
        push_be_u64(out, v / 256, n - 1);
        out.push((v % 256) as u8);
        proof {
            assert((v as nat) / 256 == ((v / 256) as u64) as nat);
            assert(final(out)@ =~= old(out)@ + be_bytes(v as nat, n as nat));
        }
    }
}

/// Appends the 32 bytes of the word value of `x`.
fn push_word(out: &mut Vec<u8>, x: &Uint256)
    ensures
        final(out)@ == old(out)@ + word_bytes(x.val()),
{
    push_be_u64(out, x.limb3, 8);
    push_be_u64(out, x.limb2, 8);
    push_be_u64(out, x.limb1, 8);
    push_be_u64(out, x.limb0, 8);
    proof {
        lemma_limb_digits(*x);
        assert(final(out)@ =~= old(out)@ + word_bytes(x.val()));
    }
}

/// `2^160`, the bound of an address word.
pub open spec fn pow2_160() -> nat {
    1461501637330902918203684832716283019655932542976nat
}

/// The decoded input tuple.
pub struct AllocationInputs {
    pub chunk_count: Uint256,
    pub total_initial_amount: Uint256,
    pub total_available_amount: Uint256,
    pub initial_datas: Vec<Position>,
    pub strategy_datas: Vec<StrategyParams>,
    pub sturdy_datas: Vec<SiloRateParams>,
}

pub struct AllocationInputsV {
    pub chunk_count: nat,
    pub total_initial_amount: nat,
    pub total_available_amount: nat,
    pub initial_datas: Seq<PositionV>,
    pub strategy_datas: Seq<StrategyParamsV>,
    pub sturdy_datas: Seq<SiloRateParamsV>,
}

impl View for AllocationInputs {
    type V = AllocationInputsV;

    open spec fn view(&self) -> AllocationInputsV {
        AllocationInputsV {
            chunk_count: self.chunk_count.val(),
            total_initial_amount: self.total_initial_amount.val(),
            total_available_amount: self.total_available_amount.val(),
            initial_datas: position_views(self.initial_datas@),
            strategy_datas: strategy_views(self.strategy_datas@),
            sturdy_datas: silo_views(self.sturdy_datas@),
        }
    }
}

/// The position array at `off` is well-formed: its length word and elements
/// lie within the buffer and every strategy word is a valid address.
pub open spec fn positions_ok(b: Seq<u8>, off: nat) -> bool {
    &&& off + 32 <= b.len()
    &&& off + 32 + word_at(b, off as int) * 64 <= b.len()
    &&& forall|i: int|
        0 <= i < word_at(b, off as int) ==> #[trigger] word_at(b, off + 32 + 64 * i) < pow2_160()
}

/// The positions encoded at `off`: pairs of an address word and a debt word.
pub open spec fn positions_at(b: Seq<u8>, off: nat) -> Seq<PositionV> {
    Seq::new(
        word_at(b, off as int),
        |i: int|
            PositionV {
                strategy: word_at(b, off + 32 + 64 * i),
                debt: word_at(b, off + 32 + 64 * i + 32),
            },
    )
}

/// The strategy array at `off` is well-formed: four words per element.
pub open spec fn strategies_ok(b: Seq<u8>, off: nat) -> bool {
    &&& off + 32 <= b.len()
    &&& off + 32 + word_at(b, off as int) * 128 <= b.len()
}

pub open spec fn strategies_at(b: Seq<u8>, off: nat) -> Seq<StrategyParamsV> {
    Seq::new(
        word_at(b, off as int),
        |i: int|
            StrategyParamsV {
                activation: word_at(b, off + 32 + 128 * i),
                last_report: word_at(b, off + 32 + 128 * i + 32),
                current_debt: word_at(b, off + 32 + 128 * i + 64),
                max_debt: word_at(b, off + 32 + 128 * i + 96),
            },
    )
}

/// The silo array at `off` is well-formed: seventeen words per element, the
/// last one a boolean word (zero or one).
pub open spec fn silos_ok(b: Seq<u8>, off: nat) -> bool {
    &&& off + 32 <= b.len()
    &&& off + 32 + word_at(b, off as int) * 544 <= b.len()
    &&& forall|i: int|
        0 <= i < word_at(b, off as int) ==> #[trigger] word_at(b, off + 32 + 544 * i + 512) <= 1
}

pub open spec fn silos_at(b: Seq<u8>, off: nat) -> Seq<SiloRateParamsV> {
    Seq::new(
        word_at(b, off as int),
        |i: int|
            SiloRateParamsV {
                cur_timestamp: word_at(b, off + 32 + 544 * i),
                last_timestamp: word_at(b, off + 32 + 544 * i + 32),
                rate_per_sec: word_at(b, off + 32 + 544 * i + 64),
                full_utilization_rate: word_at(b, off + 32 + 544 * i + 96),
                total_asset: word_at(b, off + 32 + 544 * i + 128),
                total_borrow: word_at(b, off + 32 + 544 * i + 160),
                util_prec: word_at(b, off + 32 + 544 * i + 192),
                min_target_util: word_at(b, off + 32 + 544 * i + 224),
                max_target_util: word_at(b, off + 32 + 544 * i + 256),
                vertex_utilization: word_at(b, off + 32 + 544 * i + 288),
                min_full_util_rate: word_at(b, off + 32 + 544 * i + 320),
                max_full_util_rate: word_at(b, off + 32 + 544 * i + 352),
                zero_util_rate: word_at(b, off + 32 + 544 * i + 384),
                rate_half_life: word_at(b, off + 32 + 544 * i + 416),
                vertex_rate_percent: word_at(b, off + 32 + 544 * i + 448),
                rate_prec: word_at(b, off + 32 + 544 * i + 480),
                is_interest_paused: word_at(b, off + 32 + 544 * i + 512) == 1,
            },
    )
}

/// The accepted input buffers and their values: a head of three value words
/// and three offset words, each offset naming a well-formed array.
pub open spec fn spec_decode_input(b: Seq<u8>) -> Option<AllocationInputsV> {
    if b.len() < 192 {
        None
    } else {
        let off1 = word_at(b, 96);
        let off2 = word_at(b, 128);
        let off3 = word_at(b, 160);
        if !positions_ok(b, off1) || !strategies_ok(b, off2) || !silos_ok(b, off3) {
            None
        } else {
            Some(
                AllocationInputsV {
                    chunk_count: word_at(b, 0),
                    total_initial_amount: word_at(b, 32),
                    total_available_amount: word_at(b, 64),
                    initial_datas: positions_at(b, off1),
                    strategy_datas: strategies_at(b, off2),
                    sturdy_datas: silos_at(b, off3),
                },
            )
        }
    }
}

/// `x <= y / d` exactly when `x * d <= y`, for naturals and a positive `d`.
proof fn lemma_le_div_iff(x: nat, y: nat, d: nat)
    requires
        d > 0,
    ensures
        (x <= y / d) <==> (x * d <= y),
{
    if x <= y / d {
        lemma_mul_inequality(x as int, (y / d) as int, d as int);
        lemma_fundamental_div_mod(y as int, d as int);
        lemma_mod_bound(y as int, d as int);
        assert((y / d) * d == d * (y / d)) by (nonlinear_arith);
    }
    if x * d <= y {
        lemma_div_by_multiple(x as int, d as int);
        lemma_div_is_ordered((x * d) as int, y as int, d as int);
    }
}

/// Reads the offset word at `pos` and checks that an array head fits there.
fn read_offset(bytes: &Vec<u8>, pos: usize) -> (r: Option<u64>)
    requires
        192 <= bytes@.len(),
        pos + 32 <= bytes@.len(),
    ensures
        ({
            let off = word_at(bytes@, pos as int);
            &&& (off + 32 <= bytes@.len()) ==> (r matches Some(v) && v == off)
            &&& (off + 32 > bytes@.len()) ==> r is None
        }),
{
    let len64 = bytes.len() as u64;
    let w = read_word(bytes, pos);
    match w.to_u64() {
        Some(v) => {
            if v <= len64 - 32 {
                Some(v)
            } else {
                None
            }
        },
        None => None,
    }
}

/// Decodes the position array at `off`; `None` exactly when the array is not
/// well-formed there.
#[verifier::loop_isolation(false)]
#[verifier::rlimit(100)]
fn decode_positions(bytes: &Vec<u8>, off: u64) -> (r: Option<Vec<Position>>)
    requires
        off + 32 <= bytes@.len(),
    ensures
        positions_ok(bytes@, off as nat) ==> (r matches Some(v) && position_views(v@) == positions_at(
            bytes@,
            off as nat,
        )),
        !positions_ok(bytes@, off as nat) ==> r is None,
{
    let len64 = bytes.len() as u64;
    let nw = read_word(bytes, off as usize);
    let n64 = match nw.to_u64() {
        Some(v) => v,
        None => {
            proof {
                let n = word_at(bytes@, off as int);
                assert(n * 64 >= n * 1) by (nonlinear_arith)
                    requires
                        n >= 0,
                ;
            }
            return None;
        },
    };
    let rem = len64 - off - 32;
    proof {
        lemma_le_div_iff(n64 as nat, rem as nat, 64);
    }
    if n64 > rem / 64 {
        return None;
    }
    let n = n64 as usize;
    let base = (off as usize) + 32;
    let mut out: Vec<Position> = Vec::new();
    let ghost target = positions_at(bytes@, off as nat);
    let mut i: usize = 0;
    while i < n
        invariant
            i <= n,
            out@.len() == i,
            forall|q: int| 0 <= q < i ==> position_views(out@)[q] == target[q],
            forall|q: int|
                0 <= q < i ==> #[trigger] word_at(bytes@, off + 32 + 64 * q) < pow2_160(),
        decreases n - i,
    {
        let pos = base + 64 * i;
        let sw = read_word(bytes, pos);
        if !(sw.limb3 == 0 && sw.limb2 < 0x1_0000_0000u64) {
            proof {
                assert(sw.val() >= pow2_160());
            }
            return None;
        }
        let dw = read_word(bytes, pos + 32);
        let p = Position {
            strategy: Address { lo: sw.limb0, mid: sw.limb1, hi: sw.limb2 as u32 },
            debt: dw,
        };
        proof {
            assert(p@.strategy == word_at(bytes@, off + 32 + 64 * (i as int)));
            assert(p@.debt == word_at(bytes@, off + 32 + 64 * (i as int) + 32));
        }
        out.push(p);
        i += 1;
    }
    proof {
        assert(position_views(out@) =~= target);
    }
    Some(out)
}

/// Decodes the strategy array at `off`; `None` exactly when it does not fit.
#[verifier::loop_isolation(false)]
#[verifier::rlimit(100)]
fn decode_strategies(bytes: &Vec<u8>, off: u64) -> (r: Option<Vec<StrategyParams>>)
    requires
        off + 32 <= bytes@.len(),
    ensures
        strategies_ok(bytes@, off as nat) ==> (r matches Some(v) && strategy_views(v@) == strategies_at(
            bytes@,
            off as nat,
        )),
        !strategies_ok(bytes@, off as nat) ==> r is None,
{
    let len64 = bytes.len() as u64;
    let nw = read_word(bytes, off as usize);
    let n64 = match nw.to_u64() {
        Some(v) => v,
        None => {
            proof {
                let n = word_at(bytes@, off as int);
                assert(n * 128 >= n * 1) by (nonlinear_arith)
                    requires
                        n >= 0,
                ;
            }
            return None;
        },
    };
    let rem = len64 - off - 32;
    proof {
        lemma_le_div_iff(n64 as nat, rem as nat, 128);
    }
    if n64 > rem / 128 {
        return None;
    }
    let n = n64 as usize;
    let base = (off as usize) + 32;
    let mut out: Vec<StrategyParams> = Vec::new();
    let ghost target = strategies_at(bytes@, off as nat);
    let mut i: usize = 0;
    while i < n
        invariant
            i <= n,
            out@.len() == i,
            forall|q: int| 0 <= q < i ==> strategy_views(out@)[q] == target[q],
        decreases n - i,
    {
        let pos = base + 128 * i;
        let p = StrategyParams {
            activation: read_word(bytes, pos),
            last_report: read_word(bytes, pos + 32),
            current_debt: read_word(bytes, pos + 64),
            max_debt: read_word(bytes, pos + 96),
        };
        proof {
            assert(p@ == target[i as int]);
        }
        out.push(p);
        i += 1;
    }
    proof {
        assert(strategy_views(out@) =~= target);
    }
    Some(out)
}

/// Decodes the silo array at `off`; `None` exactly when it does not fit or a
/// boolean word is neither zero nor one.
#[verifier::loop_isolation(false)]
#[verifier::rlimit(100)]
fn decode_silos(bytes: &Vec<u8>, off: u64) -> (r: Option<Vec<SiloRateParams>>)
    requires
        off + 32 <= bytes@.len(),
    ensures
        silos_ok(bytes@, off as nat) ==> (r matches Some(v) && silo_views(v@) == silos_at(
            bytes@,
            off as nat,
        )),
        !silos_ok(bytes@, off as nat) ==> r is None,
{
    let len64 = bytes.len() as u64;
    let nw = read_word(bytes, off as usize);
    let n64 = match nw.to_u64() {
        Some(v) => v,
        None => {
            proof {
                let n = word_at(bytes@, off as int);
                assert(n * 544 >= n * 1) by (nonlinear_arith)
                    requires
                        n >= 0,
                ;
            }
            return None;
        },
    };
    let rem = len64 - off - 32;
    proof {
        lemma_le_div_iff(n64 as nat, rem as nat, 544);
    }
    if n64 > rem / 544 {
        return None;
    }
    let n = n64 as usize;
    let base = (off as usize) + 32;
    let mut out: Vec<SiloRateParams> = Vec::new();
    let ghost target = silos_at(bytes@, off as nat);
    let one = Uint256::from_u64(1);
    let mut i: usize = 0;
    while i < n
        invariant
            i <= n,
            out@.len() == i,
            forall|q: int| 0 <= q < i ==> silo_views(out@)[q] == target[q],
            forall|q: int|
                0 <= q < i ==> #[trigger] word_at(bytes@, off + 32 + 544 * q + 512) <= 1,
        decreases n - i,
    {
        let pos = base + 544 * i;
        let bw = read_word(bytes, pos + 512);
        let paused: bool;
        if bw.is_zero() {
            paused = false;
        } else if bw.eq_val(&one) {
            paused = true;
        } else {
            return None;
        }
        let p = SiloRateParams {
            cur_timestamp: read_word(bytes, pos),
            last_timestamp: read_word(bytes, pos + 32),
            rate_per_sec: read_word(bytes, pos + 64),
            full_utilization_rate: read_word(bytes, pos + 96),
            total_asset: read_word(bytes, pos + 128),
            total_borrow: read_word(bytes, pos + 160),
            util_prec: read_word(bytes, pos + 192),
            min_target_util: read_word(bytes, pos + 224),
            max_target_util: read_word(bytes, pos + 256),
            vertex_utilization: read_word(bytes, pos + 288),
            min_full_util_rate: read_word(bytes, pos + 320),
            max_full_util_rate: read_word(bytes, pos + 352),
            zero_util_rate: read_word(bytes, pos + 384),
            rate_half_life: read_word(bytes, pos + 416),
            vertex_rate_percent: read_word(bytes, pos + 448),
            rate_prec: read_word(bytes, pos + 480),
            is_interest_paused: paused,
        };
        proof {
            assert(p@ == target[i as int]);
        }
        out.push(p);
        i += 1;
    }
    proof {
        assert(silo_views(out@) =~= target);
    }
    Some(out)
}

/// Decodes the whole input tuple; `None` exactly when [`spec_decode_input`]
/// rejects the bytes.
pub fn decode_input(bytes: &Vec<u8>) -> (r: Option<AllocationInputs>)
    ensures
        ({
            let s = spec_decode_input(bytes@);
            &&& s is Some ==> (r matches Some(v) && v@ == s->Some_0)
            &&& s is None ==> r is None
        }),
{
    if bytes.len() < 192 {
        return None;
    }
    let chunk_count = read_word(bytes, 0);
    let total_initial_amount = read_word(bytes, 32);
    let total_available_amount = read_word(bytes, 64);
    let off1 = match read_offset(bytes, 96) {
        Some(v) => v,
        None => { return None; },
    };
    let off2 = match read_offset(bytes, 128) {
        Some(v) => v,
        None => { return None; },
    };
    let off3 = match read_offset(bytes, 160) {
        Some(v) => v,
        None => { return None; },
    };
    let initial_datas = match decode_positions(bytes, off1) {
        Some(v) => v,
        None => { return None; },
    };
    let strategy_datas = match decode_strategies(bytes, off2) {
        Some(v) => v,
        None => { return None; },
    };
    let sturdy_datas = match decode_silos(bytes, off3) {
        Some(v) => v,
        None => { return None; },
    };
    Some(
        AllocationInputs {
            chunk_count,
            total_initial_amount,
            total_available_amount,
            initial_datas,
            strategy_datas,
            sturdy_datas,
        },
    )
}

/// The word value of the success flag.
pub open spec fn bool_word(s: bool) -> nat {
    if s {
        1
    } else {
        0
    }
}

/// The tail of the journal: each plan entry as an address word and a debt
/// word, in order.
pub open spec fn encode_entries(ps: Seq<PositionV>, k: int) -> Seq<u8>
    decreases k,
{
    if k <= 0 {
        Seq::empty()
    } else {
        encode_entries(ps, k - 1) + word_bytes(ps[k - 1].strategy) + word_bytes(ps[k - 1].debt)
    }
}

/// The journal bytes: the head (array offset, both APRs, the flag) followed
/// by the plan's length word and entries.
pub open spec fn spec_encode_output(o: AllocationOutputsV) -> Seq<u8> {
    word_bytes(128) + word_bytes(o.new_apr) + word_bytes(o.current_apr) + word_bytes(
        bool_word(o.success),
    ) + word_bytes(o.allocations.len()) + encode_entries(o.allocations, o.allocations.len() as int)
}

fn address_word(a: &Address) -> (r: Uint256)
    ensures
        r.val() == a.val(),
{
    Uint256 { limb0: a.lo, limb1: a.mid, limb2: a.hi as u64, limb3: 0 }
}

/// Encodes the result tuple as the journal bytes of
/// [`spec_encode_output`].
#[verifier::loop_isolation(false)]
#[verifier::rlimit(100)]
pub fn encode_output(o: &AllocationOutputs) -> (r: Vec<u8>)
    ensures
        r@ == spec_encode_output(o@),
{
    let mut out: Vec<u8> = Vec::new();
    push_word(&mut out, &Uint256::from_u64(128));
    push_word(&mut out, &Uint256::from_u64(o.new_apr));
    push_word(&mut out, &Uint256::from_u64(o.current_apr));
    if o.success {
        push_word(&mut out, &Uint256::from_u64(1));
    } else {
        push_word(&mut out, &Uint256::from_u64(0));
    }
    let n = o.allocations.len();
    push_word(&mut out, &Uint256::from_u64(n as u64));
    let ghost head = out@;
    let mut i: usize = 0;
    while i < n
        invariant
            i <= n,
            n == o.allocations@.len(),
            out@ == head + encode_entries(o@.allocations, i as int),
        decreases n - i,
    {
        push_word(&mut out, &address_word(&o.allocations[i].strategy));
        push_word(&mut out, &o.allocations[i].debt);
        proof {
            assert(out@ =~= head + encode_entries(o@.allocations, i + 1));
        }
        i += 1;
    }
    proof {
        assert(out@ =~= spec_encode_output(o@));
    }
    out
}

/// The result of a run with nothing to move: an empty plan, both APRs zero.
pub open spec fn empty_outputs() -> AllocationOutputsV {
    AllocationOutputsV { allocations: Seq::empty(), new_apr: 0nat, current_apr: 0nat, success: false }
}

/// The whole run, bytes to bytes: decode, allocate, gate, encode.  `None` is
/// a fatal fault and commits no journal.
pub open spec fn spec_process(b: Seq<u8>) -> Option<Seq<u8>> {
    match spec_decode_input(b) {
        None => None,
        Some(inp) => {
            let c = inp.chunk_count;
            let a0 = inp.total_initial_amount;
            let a = inp.total_available_amount;
            let n = inp.initial_datas.len();
            if c >= crate::num::pow2_64() {
                None
            } else if a < a0 || c == 0 {
                None
            } else if ((a - a0) as nat) / c == 0 {
                Some(spec_encode_output(empty_outputs()))
            } else if inp.sturdy_datas.len() < n || inp.strategy_datas.len() < n {
                None
            } else {
                match spec_evaluate(c, a0, a, inp.initial_datas, inp.sturdy_datas, inp.strategy_datas) {
                    None => None,
                    Some(o) => Some(spec_encode_output(o)),
                }
            }
        },
    }
}

/// Runs the engine on one input buffer; `None` exactly when
/// [`spec_process`] faults.
pub fn process(bytes: &Vec<u8>) -> (r: Option<Vec<u8>>)
    ensures
        ({
            let s = spec_process(bytes@);
            &&& s is Some ==> (r matches Some(v) && v@ == s->Some_0)
            &&& s is None ==> r is None
        }),
{
    let inp = match decode_input(bytes) {
        Some(x) => x,
        None => { return None; },
    };
    let c = match inp.chunk_count.to_u64() {
        Some(x) => x,
        None => { return None; },
    };
    let avail = match u256_checked_sub(&inp.total_available_amount, &inp.total_initial_amount) {
        Some(x) => x,
        None => { return None; },
    };
    if c == 0 {
        return None;
    }
    let unit = match u256_checked_div(&avail, &Uint256::from_u64(c)) {
        Some(x) => x,
        None => { return None; },
    };
    if unit.is_zero() {
        let empty_alloc: Vec<Position> = Vec::new();
        let out = AllocationOutputs { allocations: empty_alloc, new_apr: 0, current_apr: 0, success: false };
        proof {
            assert(position_views(out.allocations@) =~= Seq::<PositionV>::empty());
            assert(out@ == empty_outputs());
        }
        let r = encode_output(&out);
        return Some(r);
    }
    if inp.sturdy_datas.len() < inp.initial_datas.len() || inp.strategy_datas.len()
        < inp.initial_datas.len() {
        return None;
    }
    let o = match evaluate(
        c,
        &inp.total_initial_amount,
        &inp.total_available_amount,
        &inp.initial_datas,
        &inp.sturdy_datas,
        &inp.strategy_datas,
    ) {
        Some(x) => x,
        None => { return None; },
    };
    let r = encode_output(&o);
    Some(r)
}

/// Determinism: identical input bytes give identical journal bytes.
pub proof fn lemma_determinism(b1: Seq<u8>, b2: Seq<u8>)
    requires
        b1 == b2,
    ensures
        spec_process(b1) == spec_process(b2),
{
}

} // verus!
