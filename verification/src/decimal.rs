//! Exact decimal arithmetic for the language's Real values.
//!
//! A [`Real`] holds the value `mant / 10^scale` with an `i64` mantissa and at
//! most [`MAX_SCALE`] decimal places, so every value is an exact decimal
//! fraction.  Addition, subtraction and multiplication are exact whenever the
//! result fits; division succeeds exactly when an exact decimal quotient is
//! found within the search bound, and fails otherwise.  Each operation is
//! specified by a spec-level twin over [`RealV`], the unbounded image of a
//! [`Real`], and the twins in turn satisfy the arithmetic laws proved at the
//! end of this file: a sum or product that comes back `Some` is the exact
//! mathematical sum or product of its operands.

use vstd::arithmetic::div_mod::{
    lemma_fundamental_div_mod, lemma_fundamental_div_mod_converse, lemma_mod_multiples_basic,
};
use vstd::arithmetic::mul::{
    lemma_mul_is_associative, lemma_mul_is_distributive_add_other_way,
    lemma_mul_is_distributive_sub_other_way,
};
use vstd::prelude::*;

verus! {

/// Greatest number of decimal places a well-formed `Real` may carry.
pub const MAX_SCALE: u32 = 18;

/// Greatest exponent ever handed to `pow10_i128` (division search included).
pub const POW_LIMIT: u32 = 19;

/// A real number stored exactly as `mant / 10^scale`.
#[derive(Clone, Copy, Debug, PartialEq, Eq)]
pub struct Real {
    pub mant: i64,
    pub scale: u32,
}

/// Spec-level image of a `Real`: the same pair with unbounded fields.
pub struct RealV {
    pub m: int,
    pub k: nat,
}

/// 10 to the `k`-th power.
pub open spec fn pow10(k: nat) -> int
    decreases k,
{
    if k == 0 {
        1
    } else {
        10 * pow10((k - 1) as nat)
    }
}

/// A `Real` is well formed when its scale stays within `MAX_SCALE`.
pub open spec fn real_wf(r: Real) -> bool {
    r.scale <= MAX_SCALE
}

/// The spec-level image of a `Real`.
pub open spec fn rv(r: Real) -> RealV {
    RealV { m: r.mant as int, k: r.scale as nat }
}

/// The value of a spec-level real, scaled by `10^MAX_SCALE` so that every
/// well-formed real maps to an integer: `sval(v) == v.m * 10^(18 - v.k)`.
pub open spec fn sval(v: RealV) -> int {
    v.m * pow10((MAX_SCALE - v.k) as nat)
}

pub open spec fn fits_i64(m: int) -> bool {
    i64::MIN <= m <= i64::MAX
}

pub open spec fn iabs(x: int) -> int {
    if x < 0 {
        -x
    } else {
        x
    }
}

/// Reduce `m / 10^k` to a representable pair by stripping factors of ten,
/// or `None` when the value cannot be held in a well-formed `Real`.
pub open spec fn squeeze(m: int, k: nat) -> Option<RealV>
    decreases k,
{
    if fits_i64(m) && k <= MAX_SCALE {
        Some(RealV { m, k })
    } else if k > 0 && m % 10 == 0 {
        squeeze(m / 10, (k - 1) as nat)
    } else {
        None
    }
}

/// Spec twin of `real_add`.
pub open spec fn spec_real_add(a: RealV, b: RealV) -> Option<RealV> {
    let k = if a.k >= b.k {
        a.k
    } else {
        b.k
    };
    squeeze(a.m * pow10((k - a.k) as nat) + b.m * pow10((k - b.k) as nat), k)
}

/// Spec twin of `real_sub`.
pub open spec fn spec_real_sub(a: RealV, b: RealV) -> Option<RealV> {
    let k = if a.k >= b.k {
        a.k
    } else {
        b.k
    };
    squeeze(a.m * pow10((k - a.k) as nat) - b.m * pow10((k - b.k) as nat), k)
}

/// Spec twin of `real_mul`.
pub open spec fn spec_real_mul(a: RealV, b: RealV) -> Option<RealV> {
    squeeze(a.m * b.m, a.k + b.k)
}

/// Spec twin of `real_neg`.
pub open spec fn spec_real_neg(a: RealV) -> Option<RealV> {
    squeeze(-a.m, a.k)
}

/// Smallest `t <= POW_LIMIT` at which `am * 10^t` is divisible by `bm`,
/// together with the quotient; `None` when no such `t` exists.
pub open spec fn div_search(am: int, bm: int, t: nat) -> Option<(int, nat)>
    decreases POW_LIMIT + 1 - t,
{
    if bm <= 0 || t > POW_LIMIT {
        None
    } else if (am * pow10(t)) % bm == 0 {
        Some(((am * pow10(t)) / bm, t))
    } else {
        div_search(am, bm, t + 1)
    }
}

/// Spec twin of `real_div`: the exact decimal quotient, found by searching
/// for the least power of ten that makes the division come out even.
pub open spec fn spec_real_div(a: RealV, b: RealV) -> Option<RealV> {
    match div_search(iabs(a.m), iabs(b.m), 0) {
        None => None,
        Some((q, t)) => {
            let m = if (a.m < 0) != (b.m < 0) {
                -q
            } else {
                q
            };
            let s = a.k + t - b.k;
            if s >= 0 {
                squeeze(m, s as nat)
            } else {
                squeeze(m * pow10((-s) as nat), 0)
            }
        },
    }
}

pub open spec fn opt_rv(r: Option<Real>) -> Option<RealV> {
    match r {
        Some(x) => Some(rv(x)),
        None => None,
    }
}

pub proof fn lemma_pow10_pos(k: nat)
    ensures
        pow10(k) >= 1,
    decreases k,
{
    if k > 0 {
        lemma_pow10_pos((k - 1) as nat);
    }
}

pub proof fn lemma_pow10_mono(i: nat, j: nat)
    requires
        i <= j,
    ensures
        pow10(i) <= pow10(j),
    decreases j,
{
    if i < j {
        lemma_pow10_mono(i, (j - 1) as nat);
        lemma_pow10_pos((j - 1) as nat);
    }
}

pub proof fn lemma_pow10_add(a: nat, b: nat)
    ensures
        pow10(a + b) == pow10(a) * pow10(b),
    decreases a,
{
    if a == 0 {
        assert(pow10(b) == 1 * pow10(b));
    } else {
        lemma_pow10_add((a - 1) as nat, b);
        assert(pow10(a + b) == 10 * pow10((a + b - 1) as nat));
        assert(10 * (pow10((a - 1) as nat) * pow10(b)) == (10 * pow10((a - 1) as nat)) * pow10(b))
            by {
            lemma_mul_is_associative(10, pow10((a - 1) as nat), pow10(b));
        }
    }
}

pub proof fn lemma_pow10_values()
    ensures
        pow10(18) == 1_000_000_000_000_000_000,
        pow10(19) == 10_000_000_000_000_000_000,
{
    reveal_with_fuel(pow10, 21);
}

/// Bound on a product from bounds on its factors.
proof fn lemma_mul_bound(x: int, y: int, bx: int, by: int)
    by (nonlinear_arith)
    requires
        -bx <= x <= bx,
        -by <= y <= by,
        0 <= bx,
        0 <= by,
    ensures
        -(bx * by) <= x * y <= bx * by,
{
}

/// A product of non-negative factors is non-negative.
proof fn lemma_mul_nonneg(x: int, y: int)
    by (nonlinear_arith)
    requires
        x >= 0,
        y >= 0,
    ensures
        x * y >= 0,
{
}

/// Ten divides `x` exactly when it divides `-x`.
proof fn lemma_neg_mod10(x: int)
    ensures
        (x % 10 == 0) <==> ((-x) % 10 == 0),
{
    if x % 10 == 0 {
        lemma_fundamental_div_mod(x, 10);
        assert(-x == 10 * (-(x / 10)));
        lemma_mod_multiples_basic(-(x / 10), 10);
    }
    if (-x) % 10 == 0 {
        lemma_fundamental_div_mod(-x, 10);
        assert(x == 10 * (-((-x) / 10)));
        lemma_mod_multiples_basic(-((-x) / 10), 10);
    }
}

/// Exact division by ten in terms of Euclidean division.
proof fn lemma_exact_div10(x: int)
    requires
        x % 10 == 0,
    ensures
        (x / 10) * 10 == x,
        x >= 0 ==> x / 10 >= 0 && x / 10 <= x,
        x < 0 ==> x / 10 < 0 && x / 10 >= x,
        ((-x) / 10) == -(x / 10),
{
    lemma_fundamental_div_mod(x, 10);
    assert(x == 10 * (x / 10));
    assert(-x == 10 * (-(x / 10)));
    lemma_fundamental_div_mod_converse(-x, 10, -(x / 10), 0);
    assert(x >= 0 ==> x / 10 >= 0) by (nonlinear_arith)
        requires
            x == 10 * (x / 10),
    ;
    assert(x < 0 ==> x / 10 < 0) by (nonlinear_arith)
        requires
            x == 10 * (x / 10),
    ;
}

/// `10^k` raised to an exec integer, for exponents up to `POW_LIMIT`.
pub fn pow10_i128(k: u32) -> (p: i128)
    requires
        k <= POW_LIMIT,
    ensures
        p == pow10(k as nat),
{
    proof {
        lemma_pow10_values();
    }
    let mut p: i128 = 1;
    let mut i: u32 = 0;
    while i < k
        invariant
            i <= k <= POW_LIMIT,
            p == pow10(i as nat),
        decreases k - i,
    {
        proof {
            lemma_pow10_values();
            lemma_pow10_pos(i as nat);
            lemma_pow10_mono(i as nat, 18);
        }
        p = p * 10;
        i = i + 1;
    }
    p
}

/// Whether ten divides `m`, via the standard library's truncated remainder.
pub fn rem10_zero(m: i128) -> (b: bool)
    ensures
        b == (m % 10 == 0),
{
    let r = m.checked_rem(10).unwrap();
    proof {
        lemma_neg_mod10(m as int);
    }
    r == 0
}

/// Exact division of `m` by ten; callers must have checked divisibility.
pub fn div10_exact(m: i128) -> (q: i128)
    requires
        m % 10 == 0,
    ensures
        q == m / 10,
{
    proof {
        lemma_exact_div10(m as int);
        lemma_neg_mod10(m as int);
        if m < 0 {
            lemma_exact_div10(-(m as int));
        }
    }
    m.checked_div(10).unwrap()
}

/// Executable form of `squeeze`.
fn squeeze_exec(m: i128, k: u32) -> (r: Option<Real>)
    requires
        k <= 40,
    ensures
        opt_rv(r) == squeeze(m as int, k as nat),
        r is Some ==> real_wf(r->Some_0),
    decreases k,
{
    if m >= (i64::MIN as i128) && m <= (i64::MAX as i128) && k <= MAX_SCALE {
        Some(Real { mant: m as i64, scale: k })
    } else if k > 0 && rem10_zero(m) {
        squeeze_exec(div10_exact(m), k - 1)
    } else {
        None
    }
}

/// Exact sum of two reals, or `None` when the result cannot be represented.
pub fn real_add(a: Real, b: Real) -> (r: Option<Real>)
    requires
        real_wf(a),
        real_wf(b),
    ensures
        opt_rv(r) == spec_real_add(rv(a), rv(b)),
        r is Some ==> real_wf(r->Some_0),
{
    let k = if a.scale >= b.scale {
        a.scale
    } else {
        b.scale
    };
    let pa = pow10_i128(k - a.scale);
    let pb = pow10_i128(k - b.scale);
    proof {
        lemma_pow10_values();
        lemma_pow10_pos((k - a.scale) as nat);
        lemma_pow10_pos((k - b.scale) as nat);
        lemma_pow10_mono((k - a.scale) as nat, 18);
        lemma_pow10_mono((k - b.scale) as nat, 18);
        lemma_mul_bound(a.mant as int, pa as int, 0x8000_0000_0000_0000, pow10(18));
        lemma_mul_bound(b.mant as int, pb as int, 0x8000_0000_0000_0000, pow10(18));
    }
    let ma = (a.mant as i128) * pa;
    let mb = (b.mant as i128) * pb;
    squeeze_exec(ma + mb, k)
}

/// Exact difference of two reals.
pub fn real_sub(a: Real, b: Real) -> (r: Option<Real>)
    requires
        real_wf(a),
        real_wf(b),
    ensures
        opt_rv(r) == spec_real_sub(rv(a), rv(b)),
        r is Some ==> real_wf(r->Some_0),
{
    let k = if a.scale >= b.scale {
        a.scale
    } else {
        b.scale
    };
    let pa = pow10_i128(k - a.scale);
    let pb = pow10_i128(k - b.scale);
    proof {
        lemma_pow10_values();
        lemma_pow10_pos((k - a.scale) as nat);
        lemma_pow10_pos((k - b.scale) as nat);
        lemma_pow10_mono((k - a.scale) as nat, 18);
        lemma_pow10_mono((k - b.scale) as nat, 18);
        lemma_mul_bound(a.mant as int, pa as int, 0x8000_0000_0000_0000, pow10(18));
        lemma_mul_bound(b.mant as int, pb as int, 0x8000_0000_0000_0000, pow10(18));
    }
    let ma = (a.mant as i128) * pa;
    let mb = (b.mant as i128) * pb;
    squeeze_exec(ma - mb, k)
}

/// Exact product of two reals.
pub fn real_mul(a: Real, b: Real) -> (r: Option<Real>)
    requires
        real_wf(a),
        real_wf(b),
    ensures
        opt_rv(r) == spec_real_mul(rv(a), rv(b)),
        r is Some ==> real_wf(r->Some_0),
{
    proof {
        lemma_mul_bound(
            a.mant as int,
            b.mant as int,
            0x8000_0000_0000_0000,
            0x8000_0000_0000_0000,
        );
    }
    let mm = (a.mant as i128) * (b.mant as i128);
    squeeze_exec(mm, a.scale + b.scale)
}

/// Exact negation of a real; fails only on the one unrepresentable mantissa.
pub fn real_neg(a: Real) -> (r: Option<Real>)
    requires
        real_wf(a),
    ensures
        opt_rv(r) == spec_real_neg(rv(a)),
        r is Some ==> real_wf(r->Some_0),
{
    if a.mant == i64::MIN {
        proof {
            assert((-(i64::MIN as int)) % 10 != 0);
        }
        None
    } else {
        Some(Real { mant: -a.mant, scale: a.scale })
    }
}

/// Executable form of `div_search`, on non-negative mantissas.
fn div_search_exec(am: i128, bm: i128, t: u32) -> (r: Option<(i128, u32)>)
    requires
        0 <= am <= i64::MAX as i128 + 1,
        0 < bm,
        t <= POW_LIMIT + 1,
    ensures
        match (r, div_search(am as int, bm as int, t as nat)) {
            (Some((q, u)), Some((qs, us))) => q == qs && u == us && u <= POW_LIMIT && q >= 0,
            (None, None) => true,
            _ => false,
        },
    decreases POW_LIMIT + 1 - t,
{
    if t > POW_LIMIT {
        None
    } else {
        let p = pow10_i128(t);
        proof {
            lemma_pow10_values();
            lemma_pow10_pos(t as nat);
            lemma_pow10_mono(t as nat, 19);
            lemma_mul_bound(am as int, p as int, 0x8000_0000_0000_0001, pow10(19));
            lemma_mul_nonneg(am as int, p as int);
        }
        let n = am * p;
        let rem = n.checked_rem(bm).unwrap();
        if rem == 0 {
            let q = n.checked_div(bm).unwrap();
            proof {
                lemma_div_nonneg(n as int, bm as int);
            }
            Some((q, t))
        } else {
            div_search_exec(am, bm, t + 1)
        }
    }
}

proof fn lemma_div_nonneg(x: int, d: int)
    by (nonlinear_arith)
    requires
        x >= 0,
        d > 0,
    ensures
        x / d >= 0,
        x / d <= x,
{
}

/// Magnitude of an `i64`, widened so that `i64::MIN` needs no special case.
fn abs_widen(x: i64) -> (r: i128)
    ensures
        r == iabs(x as int),
        0 <= r <= i64::MAX as i128 + 1,
{
    if x < 0 {
        -(x as i128)
    } else {
        x as i128
    }
}

/// Exact decimal quotient of two reals, or `None` when none is found
/// within the search bound.
pub fn real_div(a: Real, b: Real) -> (r: Option<Real>)
    requires
        real_wf(a),
        real_wf(b),
        b.mant != 0,
    ensures
        opt_rv(r) == spec_real_div(rv(a), rv(b)),
        r is Some ==> real_wf(r->Some_0),
{
    let am = abs_widen(a.mant);
    let bm = abs_widen(b.mant);
    match div_search_exec(am, bm, 0) {
        None => None,
        Some((q, t)) => {
            let neg = (a.mant < 0) != (b.mant < 0);
            let m: i128 = if neg {
                -q
            } else {
                q
            };
            let s: i64 = a.scale as i64 + t as i64 - b.scale as i64;
            if s >= 0 {
                squeeze_exec(m, s as u32)
            } else {
                let p = pow10_i128((-s) as u32);
                proof {
                    lemma_pow10_pos(((-s) as u32) as nat);
                }
                match m.checked_mul(p) {
                    Some(prod) => squeeze_exec(prod, 0),
                    None => None,
                }
            }
        },
    }
}

/// Whether two reals denote the same value, by cross-scaled comparison.
pub fn real_eq_val(a: Real, b: Real) -> (r: bool)
    requires
        real_wf(a),
        real_wf(b),
    ensures
        r == (sval(rv(a)) == sval(rv(b))),
{
    let ma = scale_up(a);
    let mb = scale_up(b);
    ma == mb
}

/// The value of a real scaled to `10^MAX_SCALE`, as an exec integer.
pub fn scale_up(a: Real) -> (m: i128)
    requires
        real_wf(a),
    ensures
        m == sval(rv(a)),
{
    let p = pow10_i128(MAX_SCALE - a.scale);
    proof {
        lemma_pow10_values();
        lemma_pow10_pos((MAX_SCALE - a.scale) as nat);
        lemma_pow10_mono((MAX_SCALE - a.scale) as nat, 18);
        lemma_mul_bound(a.mant as int, p as int, 0x8000_0000_0000_0000, pow10(18));
    }
    (a.mant as i128) * p
}

/// A real made of a mantissa and a number of decimal places.
pub fn real_from_decimal(mant: i64, scale: u32) -> (r: Real)
    requires
        scale <= MAX_SCALE,
    ensures
        r == (Real { mant, scale }),
        real_wf(r),
{
    Real { mant, scale }
}

/// The real with the value of the given integer.
pub fn real_from_int(i: i64) -> (r: Real)
    ensures
        r == (Real { mant: i, scale: 0 }),
        real_wf(r),
        sval(rv(r)) == i * pow10(MAX_SCALE as nat),
{
    Real { mant: i, scale: 0 }
}

/// What `squeeze` preserves: the reduced pair denotes the starting value.
pub proof fn lemma_squeeze_value(m: int, k: nat)
    requires
        squeeze(m, k) is Some,
    ensures
        ({
            let c = squeeze(m, k)->Some_0;
            &&& c.k <= k
            &&& c.k <= MAX_SCALE
            &&& fits_i64(c.m)
            &&& c.m * pow10((k - c.k) as nat) == m
        }),
    decreases k,
{
    if fits_i64(m) && k <= MAX_SCALE {
        assert(m * pow10(0) == m);
    } else {
        lemma_squeeze_value(m / 10, (k - 1) as nat);
        let c = squeeze(m, k)->Some_0;
        lemma_exact_div10(m);
        assert(c.m * pow10((k - 1 - c.k) as nat) == m / 10);
        assert(pow10((k - c.k) as nat) == pow10((k - 1 - c.k) as nat) * 10) by {
            lemma_pow10_add((k - 1 - c.k) as nat, 1);
            assert(pow10(1) == 10) by {
                reveal_with_fuel(pow10, 2);
            }
        }
        assert(c.m * (pow10((k - 1 - c.k) as nat) * 10) == (c.m * pow10((k - 1 - c.k) as nat))
            * 10) by {
            lemma_mul_is_associative(c.m, pow10((k - 1 - c.k) as nat), 10);
        }
    }
}

/// A sum that is represented is the exact mathematical sum.
pub proof fn lemma_real_add_exact(a: RealV, b: RealV, c: RealV)
    requires
        a.k <= MAX_SCALE,
        b.k <= MAX_SCALE,
        spec_real_add(a, b) == Some(c),
    ensures
        sval(c) == sval(a) + sval(b),
{
    let k = if a.k >= b.k {
        a.k
    } else {
        b.k
    };
    let m = a.m * pow10((k - a.k) as nat) + b.m * pow10((k - b.k) as nat);
    lemma_squeeze_value(m, k);
    lemma_scaled_value(a, k);
    lemma_scaled_value(b, k);
    lemma_squeezed_sval(m, k, c);
    lemma_mul_is_distributive_add_other_way(
        pow10((MAX_SCALE - k) as nat),
        a.m * pow10((k - a.k) as nat),
        b.m * pow10((k - b.k) as nat),
    );
}

/// A difference that is represented is the exact mathematical difference.
pub proof fn lemma_real_sub_exact(a: RealV, b: RealV, c: RealV)
    requires
        a.k <= MAX_SCALE,
        b.k <= MAX_SCALE,
        spec_real_sub(a, b) == Some(c),
    ensures
        sval(c) == sval(a) - sval(b),
{
    let k = if a.k >= b.k {
        a.k
    } else {
        b.k
    };
    let m = a.m * pow10((k - a.k) as nat) - b.m * pow10((k - b.k) as nat);
    lemma_squeeze_value(m, k);
    lemma_scaled_value(a, k);
    lemma_scaled_value(b, k);
    lemma_squeezed_sval(m, k, c);
    lemma_mul_is_distributive_sub_other_way(
        pow10((MAX_SCALE - k) as nat),
        a.m * pow10((k - a.k) as nat),
        b.m * pow10((k - b.k) as nat),
    );
}

/// A product that is represented is the exact mathematical product,
/// read at the doubled scale.
pub proof fn lemma_real_mul_exact(a: RealV, b: RealV, c: RealV)
    requires
        a.k <= MAX_SCALE,
        b.k <= MAX_SCALE,
        spec_real_mul(a, b) == Some(c),
    ensures
        sval(c) * pow10(MAX_SCALE as nat) == sval(a) * sval(b),
{
    let m = a.m * b.m;
    let k = a.k + b.k;
    lemma_squeeze_value(m, k);
    // sval(c) * 10^18 == c.m * 10^(18 - c.k) * 10^18 == c.m * 10^(36 - c.k)
    // == c.m * 10^(k - c.k) * 10^(36 - k) == m * 10^(36 - k)
    // == a.m * b.m * 10^(18 - a.k) * 10^(18 - b.k) == sval(a) * sval(b)
    lemma_pow10_add((MAX_SCALE - c.k) as nat, MAX_SCALE as nat);
    lemma_mul_is_associative(c.m, pow10((MAX_SCALE - c.k) as nat), pow10(MAX_SCALE as nat));
    assert(sval(c) * pow10(MAX_SCALE as nat) == c.m * pow10((2 * MAX_SCALE - c.k) as nat));
    lemma_pow10_add((k - c.k) as nat, (2 * MAX_SCALE - k) as nat);
    lemma_mul_is_associative(c.m, pow10((k - c.k) as nat), pow10((2 * MAX_SCALE - k) as nat));
    assert(c.m * pow10((2 * MAX_SCALE - c.k) as nat) == m * pow10((2 * MAX_SCALE - k) as nat));
    lemma_pow10_add((MAX_SCALE - a.k) as nat, (MAX_SCALE - b.k) as nat);
    assert((a.m * pow10((MAX_SCALE - a.k) as nat)) * (b.m * pow10((MAX_SCALE - b.k) as nat)) == (a.m
        * b.m) * (pow10((MAX_SCALE - a.k) as nat) * pow10((MAX_SCALE - b.k) as nat)))
        by (nonlinear_arith);
    assert((a.m * b.m) * (pow10((MAX_SCALE - a.k) as nat) * pow10((MAX_SCALE - b.k) as nat)) == m
        * pow10((2 * MAX_SCALE - k) as nat));
}

/// Scaling a real up to a coarser scale leaves `sval` unchanged.
proof fn lemma_scaled_value(a: RealV, k: nat)
    requires
        a.k <= k <= MAX_SCALE,
    ensures
        (a.m * pow10((k - a.k) as nat)) * pow10((MAX_SCALE - k) as nat) == sval(a),
{
    lemma_pow10_add((k - a.k) as nat, (MAX_SCALE - k) as nat);
    lemma_mul_is_associative(a.m, pow10((k - a.k) as nat), pow10((MAX_SCALE - k) as nat));
}

/// `sval` of a squeezed pair, for scales within `MAX_SCALE`.
proof fn lemma_squeezed_sval(m: int, k: nat, c: RealV)
    requires
        k <= MAX_SCALE,
        squeeze(m, k) == Some(c),
    ensures
        sval(c) == m * pow10((MAX_SCALE - k) as nat),
{
    lemma_squeeze_value(m, k);
    lemma_pow10_add((k - c.k) as nat, (MAX_SCALE - k) as nat);
    lemma_mul_is_associative(c.m, pow10((k - c.k) as nat), pow10((MAX_SCALE - k) as nat));
}

} // verus!
