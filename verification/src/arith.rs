//! Integer helpers with the semantics of Rust's operators and std methods:
//! truncating division, Euclidean remainder, saturating and clamped
//! arithmetic.
use vstd::arithmetic::div_mod::{
    lemma_fundamental_div_mod, lemma_fundamental_div_mod_converse_div,
};
use vstd::prelude::*;

verus! {

/// Rust's `/` on signed integers: rounds toward zero.
pub open spec fn trunc_div(a: int, b: int) -> int {
    if b > 0 {
        if a >= 0 {
            a / b
        } else {
            -((-a) / b)
        }
    } else if a >= 0 {
        -(a / (-b))
    } else {
        (-a) / (-b)
    }
}

/// Rust's `%` on signed integers: takes the sign of the dividend.
pub open spec fn trunc_rem(a: int, b: int) -> int {
    if b > 0 {
        if a >= 0 {
            a % b
        } else {
            -((-a) % b)
        }
    } else if a >= 0 {
        a % (-b)
    } else {
        -((-a) % (-b))
    }
}

/// `x` limited to `[lo, hi]`.
pub open spec fn clamp(x: int, lo: int, hi: int) -> int {
    if x < lo {
        lo
    } else if x > hi {
        hi
    } else {
        x
    }
}

pub open spec fn spec_min(a: int, b: int) -> int {
    if a <= b {
        a
    } else {
        b
    }
}

pub open spec fn spec_max(a: int, b: int) -> int {
    if a >= b {
        a
    } else {
        b
    }
}

/// `i64::saturating_add`.
pub open spec fn sat_add_i64(a: i64, b: i64) -> i64 {
    clamp(a + b, i64::MIN as int, i64::MAX as int) as i64
}

/// `i64::saturating_sub`.
pub open spec fn sat_sub_i64(a: i64, b: i64) -> i64 {
    clamp(a - b, i64::MIN as int, i64::MAX as int) as i64
}

/// `i32::saturating_add`.
pub open spec fn sat_add_i32(a: i32, b: i32) -> i32 {
    clamp(a + b, i32::MIN as int, i32::MAX as int) as i32
}

/// `i32::saturating_sub`.
pub open spec fn sat_sub_i32(a: i32, b: i32) -> i32 {
    clamp(a - b, i32::MIN as int, i32::MAX as int) as i32
}

pub fn saturating_add_i64(a: i64, b: i64) -> (r: i64)
    ensures
        r == sat_add_i64(a, b),
{
    match a.checked_add(b) {
        Some(v) => v,
        None => if b > 0 {
            i64::MAX
        } else {
            i64::MIN
        },
    }
}

pub fn saturating_sub_i64(a: i64, b: i64) -> (r: i64)
    ensures
        r == sat_sub_i64(a, b),
{
    match a.checked_sub(b) {
        Some(v) => v,
        None => if b < 0 {
            i64::MAX
        } else {
            i64::MIN
        },
    }
}

pub fn saturating_add_i32(a: i32, b: i32) -> (r: i32)
    ensures
        r == sat_add_i32(a, b),
{
    match a.checked_add(b) {
        Some(v) => v,
        None => if b > 0 {
            i32::MAX
        } else {
            i32::MIN
        },
    }
}

pub fn saturating_sub_i32(a: i32, b: i32) -> (r: i32)
    ensures
        r == sat_sub_i32(a, b),
{
    match a.checked_sub(b) {
        Some(v) => v,
        None => if b < 0 {
            i32::MAX
        } else {
            i32::MIN
        },
    }
}

/// `i64::rem_euclid` for a positive divisor.
pub fn rem_euclid_i64(a: i64, b: i64) -> (r: i64)
    requires
        b > 0,
    ensures
        r == a % b,
        0 <= r < b,
{
    match a.checked_rem_euclid(b) {
        Some(v) => v,
        None => 0,
    }
}

/// `i64::div_euclid` for a positive divisor.
pub fn div_euclid_i64(a: i64, b: i64) -> (r: i64)
    requires
        b > 0,
    ensures
        r == a / b,
{
    proof {
        let (x, y) = (a as int, b as int);
        assert(x / y <= spec_max(x, 0) && x / y >= spec_min(x, 0)) by (nonlinear_arith)
            requires
                y > 0,
        ;
    }
    match a.checked_div_euclid(b) {
        Some(v) => v,
        None => 0,
    }
}

/// `i32::rem_euclid` for a positive divisor.
pub fn rem_euclid_i32(a: i32, b: i32) -> (r: i32)
    requires
        b > 0,
    ensures
        r == a % b,
        0 <= r < b,
{
    match a.checked_rem_euclid(b) {
        Some(v) => v,
        None => 0,
    }
}

/// `i32::div_euclid` for a positive divisor.
pub fn div_euclid_i32(a: i32, b: i32) -> (r: i32)
    requires
        b > 0,
    ensures
        r == a / b,
{
    proof {
        let (x, y) = (a as int, b as int);
        assert(x / y <= spec_max(x, 0) && x / y >= spec_min(x, 0)) by (nonlinear_arith)
            requires
                y > 0,
        ;
    }
    match a.checked_div_euclid(b) {
        Some(v) => v,
        None => 0,
    }
}

/// `i64::clamp` (requires `lo <= hi`, as std asserts).
pub fn clamp_i64(x: i64, lo: i64, hi: i64) -> (r: i64)
    requires
        lo <= hi,
    ensures
        r == clamp(x as int, lo as int, hi as int),
{
    if x < lo {
        lo
    } else if x > hi {
        hi
    } else {
        x
    }
}

/// `i32::clamp` (requires `lo <= hi`, as std asserts).
pub fn clamp_i32(x: i32, lo: i32, hi: i32) -> (r: i32)
    requires
        lo <= hi,
    ensures
        r == clamp(x as int, lo as int, hi as int),
{
    if x < lo {
        lo
    } else if x > hi {
        hi
    } else {
        x
    }
}

/// Division distributes over an added multiple of the divisor.
pub proof fn lemma_div_add_multiple(a: int, b: int, d: int)
    requires
        d > 0,
    ensures
        (a * d + b) / d == a + b / d,
        (a * d + b) % d == b % d,
{
    lemma_fundamental_div_mod(b, d);
    let q = a + b / d;
    let r = b % d;
    assert(q * d == a * d + (b / d) * d) by (nonlinear_arith)
        requires
            q == a + b / d,
    ;
    assert(a * d + b == q * d + r) by (nonlinear_arith)
        requires
            q * d == a * d + (b / d) * d,
            b == d * (b / d) + r,
    ;
    lemma_fundamental_div_mod_converse_div(a * d + b, d, q, r);
    vstd::arithmetic::div_mod::lemma_fundamental_div_mod_converse_mod(a * d + b, d, q, r);
}

} // verus!

verus! {

/// Splitting a product's truncating quotient into the dividend's quotient and
/// remainder, as `mul_div` style helpers do to stay within 64 bits.
pub proof fn lemma_trunc_decompose(value: int, m: int, d: int)
    requires
        d > 0,
        m >= 0,
    ensures
        trunc_div(value * m, d) == trunc_div(value, d) * m + trunc_div(trunc_rem(value, d) * m, d),
        trunc_rem(value * m, d) == trunc_rem(trunc_rem(value, d) * m, d),
        value >= 0 ==> trunc_rem(value, d) >= 0,
        value <= 0 ==> trunc_rem(value, d) <= 0,
        -d < trunc_rem(value, d) < d,
{
    if value >= 0 {
        let q = value / d;
        let r = value % d;
        lemma_fundamental_div_mod(value, d);
        assert(value * m == (q * m) * d + r * m) by (nonlinear_arith)
            requires
                value == d * q + r,
        ;
        assert(r * m >= 0) by (nonlinear_arith)
            requires
                r >= 0,
                m >= 0,
        ;
        assert(value * m >= 0) by (nonlinear_arith)
            requires
                value >= 0,
                m >= 0,
        ;
        lemma_div_add_multiple(q * m, r * m, d);
    } else {
        let v = -value;
        let q = v / d;
        let r = v % d;
        lemma_fundamental_div_mod(v, d);
        assert(v * m == (q * m) * d + r * m) by (nonlinear_arith)
            requires
                v == d * q + r,
        ;
        assert(r * m >= 0) by (nonlinear_arith)
            requires
                r >= 0,
                m >= 0,
        ;
        assert(value * m == -(v * m)) by (nonlinear_arith)
            requires
                v == -value,
        ;
        assert((-r) * m == -(r * m)) by (nonlinear_arith);
        assert((-q) * m == -(q * m)) by (nonlinear_arith);
        assert(v * m >= 0) by (nonlinear_arith)
            requires
                v >= 0,
                m >= 0,
        ;
        lemma_div_add_multiple(q * m, r * m, d);
        if r * m == 0 {
            assert(0int / d == 0 && 0int % d == 0) by (nonlinear_arith)
                requires
                    d > 0,
            ;
            assert(trunc_div(0, d) == 0);
            assert(trunc_rem(0, d) == 0);
            assert((-r) * m == 0);
        } else {
            assert(trunc_rem((-r) * m, d) == -((r * m) % d));
        }
        if value * m == 0 {
            assert(trunc_rem(value * m, d) == 0);
        } else {
            assert(trunc_rem(value * m, d) == -((v * m) % d));
        }
        if v * m == 0 {
            assert((q * m) * d + r * m == 0);
        }
    }
}

} // verus!
