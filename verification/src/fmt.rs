//! Rendering stored values as text: decimal digits for integers, a
//! trailing-zero-free decimal fraction for reals, `True`/`False` for
//! booleans, and fixed spellings for the rest.

use crate::ast::{val_of, value_wf, EnvValue, Expression, Val};
use crate::decimal::{div10_exact, iabs, pow10, real_wf, rem10_zero, Real, MAX_SCALE};
use vstd::prelude::*;
use vstd::string::StringExecFns;

verus! {

/// The digit character for `d` in `0 ..= 9`.
pub open spec fn digit_char(d: int) -> char {
    if d == 0 {
        '0'
    } else if d == 1 {
        '1'
    } else if d == 2 {
        '2'
    } else if d == 3 {
        '3'
    } else if d == 4 {
        '4'
    } else if d == 5 {
        '5'
    } else if d == 6 {
        '6'
    } else if d == 7 {
        '7'
    } else if d == 8 {
        '8'
    } else {
        '9'
    }
}

/// The decimal digits of a natural number, most significant first.
pub open spec fn u64_dec(n: nat) -> Seq<char>
    decreases n,
{
    if n < 10 {
        seq![digit_char(n as int)]
    } else {
        u64_dec(n / 10) + seq![digit_char((n % 10) as int)]
    }
}

/// The decimal digits of an integer, with a leading minus when negative.
pub open spec fn i64_dec(n: int) -> Seq<char> {
    if n >= 0 {
        u64_dec(n as nat)
    } else {
        seq!['-'] + u64_dec((-n) as nat)
    }
}

/// Exactly `k` fraction digits of `r`, leading zeros kept.
pub open spec fn frac_digits(r: nat, k: nat) -> Seq<char>
    decreases k,
{
    if k == 0 {
        Seq::empty()
    } else {
        frac_digits(r / 10, (k - 1) as nat) + seq![digit_char((r % 10) as int)]
    }
}

/// The text of the pair `m / 10^k` as it stands: integer part, point,
/// `k` fraction digits (no point when `k` is zero).
pub open spec fn real_dec(m: int, k: nat) -> Seq<char> {
    if k == 0 {
        i64_dec(m)
    } else {
        (if m < 0 {
            seq!['-']
        } else {
            Seq::empty()
        }) + u64_dec((iabs(m) / pow10(k)) as nat) + seq!['.'] + frac_digits(
            (iabs(m) % pow10(k)) as nat,
            k,
        )
    }
}

/// The displayed text of a real: trailing zeros of the fraction dropped,
/// then rendered.
pub open spec fn real_disp(m: int, k: nat) -> Seq<char>
    decreases k,
{
    if k > 0 && m % 10 == 0 {
        real_disp(m / 10, (k - 1) as nat)
    } else {
        real_dec(m, k)
    }
}

/// The displayed text of a spec-level value.
pub open spec fn disp_val(v: Val) -> Seq<char> {
    match v {
        Val::VInt(x) => i64_dec(x),
        Val::VReal(r) => real_disp(r.m, r.k),
        Val::VStr(s) => s,
        Val::VBool(b) => if b {
            "True"@
        } else {
            "False"@
        },
        Val::VFunc(_) => "<function>"@,
    }
}

/// The one-character string for a digit.
fn digit_str(d: u64) -> (s: &'static str)
    requires
        d < 10,
    ensures
        s@ == seq![digit_char(d as int)],
{
    proof {
        reveal_strlit("0");
        reveal_strlit("1");
        reveal_strlit("2");
        reveal_strlit("3");
        reveal_strlit("4");
        reveal_strlit("5");
        reveal_strlit("6");
        reveal_strlit("7");
        reveal_strlit("8");
        reveal_strlit("9");
    }
    let s: &'static str = if d == 0 {
        "0"
    } else if d == 1 {
        "1"
    } else if d == 2 {
        "2"
    } else if d == 3 {
        "3"
    } else if d == 4 {
        "4"
    } else if d == 5 {
        "5"
    } else if d == 6 {
        "6"
    } else if d == 7 {
        "7"
    } else if d == 8 {
        "8"
    } else {
        "9"
    };
    proof {
        assert(s@ =~= seq![digit_char(d as int)]);
    }
    s
}

/// The decimal text of an unsigned word.
pub fn u64_to_string(n: u64) -> (s: String)
    ensures
        s@ == u64_dec(n as nat),
    decreases n,
{
    if n < 10 {
        String::from_str(digit_str(n))
    } else {
        let mut s = u64_to_string(n / 10);
        s.append(digit_str(n % 10));
        s
    }
}

/// The magnitude of an integer as an unsigned word.
fn mag_u64(x: i64) -> (r: u64)
    ensures
        r == iabs(x as int),
{
    if x < 0 {
        (-(x as i128)) as u64
    } else {
        x as u64
    }
}

/// The decimal text of a signed integer.
pub fn i64_to_string(n: i64) -> (s: String)
    ensures
        s@ == i64_dec(n as int),
{
    if n >= 0 {
        u64_to_string(n as u64)
    } else {
        proof {
            reveal_strlit("-");
        }
        let mut s = String::from_str("-");
        let t = u64_to_string(mag_u64(n));
        s.append(t.as_str());
        proof {
            assert(s@ =~= i64_dec(n as int));
        }
        s
    }
}

/// Exactly `k` fraction digits of `r`.
fn frac_to_string(r: u64, k: u32) -> (s: String)
    ensures
        s@ == frac_digits(r as nat, k as nat),
    decreases k,
{
    if k == 0 {
        String::new()
    } else {
        let mut s = frac_to_string(r / 10, k - 1);
        s.append(digit_str(r % 10));
        s
    }
}

/// `10^k` as an unsigned word, for `k` within `MAX_SCALE`.
fn pow10_u64(k: u32) -> (p: u64)
    requires
        k <= MAX_SCALE,
    ensures
        p == pow10(k as nat),
{
    proof {
        crate::decimal::lemma_pow10_values();
    }
    let mut p: u64 = 1;
    let mut i: u32 = 0;
    while i < k
        invariant
            i <= k <= MAX_SCALE,
            p == pow10(i as nat),
        decreases k - i,
    {
        proof {
            crate::decimal::lemma_pow10_values();
            crate::decimal::lemma_pow10_pos(i as nat);
            crate::decimal::lemma_pow10_mono(i as nat, 17);
        }
        p = p * 10;
        i = i + 1;
    }
    p
}

/// The displayed text of a real value.
pub fn real_to_string(x: Real) -> (s: String)
    requires
        real_wf(x),
    ensures
        s@ == real_disp(x.mant as int, x.scale as nat),
{
    let mut m: i128 = x.mant as i128;
    let mut k: u32 = x.scale;
    while k > 0 && rem10_zero(m)
        invariant
            k <= MAX_SCALE,
            crate::decimal::fits_i64(m as int),
            real_disp(m as int, k as nat) == real_disp(x.mant as int, x.scale as nat),
        decreases k,
    {
        proof {
            lemma_div10_bounds(m as int);
        }
        m = div10_exact(m);
        k = k - 1;
    }
    let neg = m < 0;
    let mag: u64 = if neg {
        (-m) as u64
    } else {
        m as u64
    };
    if k == 0 {
        i64_to_string(m as i64)
    } else {
        let p = pow10_u64(k);
        proof {
            crate::decimal::lemma_pow10_pos(k as nat);
        }
        let ip = mag / p;
        let fr = mag % p;
        let mut s = if neg {
            proof {
                reveal_strlit("-");
            }
            String::from_str("-")
        } else {
            String::new()
        };
        let t = u64_to_string(ip);
        s.append(t.as_str());
        proof {
            reveal_strlit(".");
        }
        s.append(".");
        let u = frac_to_string(fr, k);
        s.append(u.as_str());
        proof {
            assert(s@ =~= real_dec(m as int, k as nat));
        }
        s
    }
}

/// Exact division by ten keeps the value within machine bounds.
proof fn lemma_div10_bounds(m: int)
    requires
        m % 10 == 0,
        crate::decimal::fits_i64(m),
    ensures
        crate::decimal::fits_i64(m / 10),
{
    vstd::arithmetic::div_mod::lemma_fundamental_div_mod(m, 10);
}

/// The displayed text of a stored value: digits for numbers, the string
/// itself for strings, `True`/`False` for booleans, a fixed marker for
/// functions.
pub fn format_env_value(value: &EnvValue) -> (s: String)
    requires
        value_wf(*value),
    ensures
        s@ == disp_val(val_of(*value)),
{
    match value {
        EnvValue::Exp(Expression::CInt(v)) => i64_to_string(*v),
        EnvValue::Exp(Expression::CReal(v)) => real_to_string(*v),
        EnvValue::Exp(Expression::CString(v)) => v.clone(),
        EnvValue::Exp(Expression::CTrue) => String::from_str("True"),
        EnvValue::Exp(Expression::CFalse) => String::from_str("False"),
        EnvValue::Func(_) => String::from_str("<function>"),
        _ => {
            proof {
                assert(false);
            }
            String::from_str("NonExistent Type")
        },
    }
}

} // verus!
