//! Scalars of the renderer: fixed-point numbers held in an `i64`.
//!
//! A scalar `s` stands for the real number `s / ONE`. Every operation
//! saturates at `MAX_RAW`, so results stay representable whatever the input,
//! the fixed-point counterpart of a float running off to infinity.
use vstd::prelude::*;

verus! {

/// Raw value of the scalar 1.0 (six decimal places).
pub const ONE: i64 = 1_000_000;

/// Largest raw magnitude that a scalar holds.
pub const MAX_RAW: i64 = 1_000_000_000_000_000_000;

/// `x` is a raw value within the saturation bounds.
pub open spec fn is_scalar(x: int) -> bool {
    -MAX_RAW <= x <= MAX_RAW
}

/// `x` clamped into the saturation bounds.
pub open spec fn saturate(x: int) -> int {
    if x > MAX_RAW {
        MAX_RAW as int
    } else if x < -MAX_RAW {
        -MAX_RAW
    } else {
        x
    }
}

/// Absolute value.
pub open spec fn magnitude(x: int) -> int {
    if x < 0 {
        -x
    } else {
        x
    }
}

/// Quotient rounded toward zero.
pub open spec fn quot(a: int, b: int) -> int {
    if (a >= 0) == (b > 0) {
        magnitude(a) / magnitude(b)
    } else {
        -(magnitude(a) / magnitude(b))
    }
}

pub open spec fn spec_add(a: int, b: int) -> int {
    saturate(a + b)
}

pub open spec fn spec_sub(a: int, b: int) -> int {
    saturate(a - b)
}

/// Fixed-point product: `a * b / ONE`, rounded toward zero.
pub open spec fn spec_mul(a: int, b: int) -> int {
    saturate(quot(a * b, ONE as int))
}

/// Fixed-point quotient: `a * ONE / b`, rounded toward zero; zero where `b` is zero.
pub open spec fn spec_div(a: int, b: int) -> int {
    if b == 0 {
        0
    } else {
        saturate(quot(a * ONE, b))
    }
}

pub open spec fn spec_max(a: int, b: int) -> int {
    if a >= b {
        a
    } else {
        b
    }
}

/// `r` is the integer square root of `n`, rounded down.
pub open spec fn is_floor_sqrt(r: int, n: int) -> bool {
    0 <= r && r * r <= n < (r + 1) * (r + 1)
}

/// The integer square root of `n`, rounded down.
pub open spec fn floor_sqrt(n: int) -> int {
    choose|r: int| is_floor_sqrt(r, n)
}

/// Fixed-point square root: the largest `r` with `(r / ONE)^2 <= a / ONE`;
/// zero for a negative `a`.
pub open spec fn spec_sqrt(a: int) -> int {
    if a <= 0 {
        0
    } else {
        floor_sqrt(a * ONE)
    }
}

/// There is only one integer square root rounded down.
pub proof fn lemma_floor_sqrt_unique(r: int, s: int, n: int)
    requires
        is_floor_sqrt(r, n),
        is_floor_sqrt(s, n),
    ensures
        r == s,
{
    if r < s {
        assert((r + 1) * (r + 1) <= s * s) by (nonlinear_arith)
            requires
                0 <= r + 1 <= s,
        ;
    } else if s < r {
        assert((s + 1) * (s + 1) <= r * r) by (nonlinear_arith)
            requires
                0 <= s + 1 <= r,
        ;
    }
}

/// Every natural number has an integer square root rounded down.
pub proof fn lemma_floor_sqrt_exists(n: int)
    requires
        n >= 0,
    ensures
        is_floor_sqrt(floor_sqrt(n), n),
    decreases n,
{
    if n == 0 {
        assert(is_floor_sqrt(0, 0));
    } else {
        lemma_floor_sqrt_exists(n - 1);
        let r = floor_sqrt(n - 1);
        if (r + 1) * (r + 1) <= n {
            assert((r + 1) * (r + 1) < (r + 2) * (r + 2)) by (nonlinear_arith)
                requires
                    r >= 0,
            ;
            assert(is_floor_sqrt(r + 1, n));
        } else {
            assert(is_floor_sqrt(r, n));
        }
    }
}

/// Truncated quotient of a non-negative value by a positive one: the
/// quotient `k` with `k * d <= a < (k + 1) * d`.
pub proof fn lemma_quot_bounds(a: int, d: int)
    requires
        a >= 0,
        d > 0,
    ensures
        quot(a, d) == a / d,
        (a / d) * d <= a < (a / d + 1) * d,
        a / d >= 0,
{
    vstd::arithmetic::div_mod::lemma_fundamental_div_mod(a, d);
    vstd::arithmetic::div_mod::lemma_mod_pos_bound(a, d);
    vstd::arithmetic::div_mod::lemma_div_pos_is_pos(a, d);
    assert((a / d + 1) * d == (a / d) * d + d) by (nonlinear_arith);
    assert((a / d) * d == d * (a / d)) by (nonlinear_arith);
}

/// Any integer square root rounded down is the one that `floor_sqrt` names.
pub proof fn lemma_floor_sqrt_is(r: int, n: int)
    requires
        is_floor_sqrt(r, n),
    ensures
        floor_sqrt(n) == r,
{
    lemma_floor_sqrt_unique(floor_sqrt(n), r, n);
}

pub proof fn lemma_product_bound(a: int, b: int)
    requires
        is_scalar(a),
        is_scalar(b),
    ensures
        -1_000_000_000_000_000_000_000_000_000_000_000_000 <= a * b
            <= 1_000_000_000_000_000_000_000_000_000_000_000_000,
{
    assert(magnitude(a) * magnitude(b) <= MAX_RAW * MAX_RAW) by (nonlinear_arith)
        requires
            0 <= magnitude(a) <= MAX_RAW,
            0 <= magnitude(b) <= MAX_RAW,
    ;
    assert(magnitude(a * b) == magnitude(a) * magnitude(b)) by (nonlinear_arith);
}

/// Relies on num::integer::Roots::sqrt for `u128`: the truncated principal
/// square root, the largest `r` with `r * r <= n`.
#[verifier::external_body]
fn floor_sqrt_u128(n: u128) -> (r: u128)
    ensures
        r * r <= n < (r + 1) * (r + 1),
{
    num::integer::Roots::sqrt(&n)
}

fn saturate_wide(x: i128) -> (r: i64)
    ensures
        r == saturate(x as int),
{
    if x > MAX_RAW as i128 {
        MAX_RAW
    } else if x < -(MAX_RAW as i128) {
        -MAX_RAW
    } else {
        x as i64
    }
}

/// Truncated quotient, worked out on magnitudes.
fn quot_wide(a: i128, b: i128) -> (r: i128)
    requires
        b != 0,
        a > i128::MIN,
        b > i128::MIN,
    ensures
        r == quot(a as int, b as int),
{
    let ma: u128 = if a < 0 { (-a) as u128 } else { a as u128 };
    let mb: u128 = if b < 0 { (-b) as u128 } else { b as u128 };
    let q = ma / mb;
    assert(q <= ma) by (nonlinear_arith)
        requires
            q == ma / mb,
            mb >= 1,
    ;
    if (a >= 0) == (b > 0) {
        q as i128
    } else {
        -(q as i128)
    }
}

pub fn fx_add(a: i64, b: i64) -> (r: i64)
    requires
        is_scalar(a as int),
        is_scalar(b as int),
    ensures
        r == spec_add(a as int, b as int),
{
    saturate_wide(a as i128 + b as i128)
}

pub fn fx_sub(a: i64, b: i64) -> (r: i64)
    requires
        is_scalar(a as int),
        is_scalar(b as int),
    ensures
        r == spec_sub(a as int, b as int),
{
    saturate_wide(a as i128 - b as i128)
}

pub fn fx_mul(a: i64, b: i64) -> (r: i64)
    requires
        is_scalar(a as int),
        is_scalar(b as int),
    ensures
        r == spec_mul(a as int, b as int),
{
    proof {
        lemma_product_bound(a as int, b as int);
    }
    let p = (a as i128) * (b as i128);
    saturate_wide(p / (ONE as i128))
}

pub fn fx_div(a: i64, b: i64) -> (r: i64)
    requires
        is_scalar(a as int),
        is_scalar(b as int),
    ensures
        r == spec_div(a as int, b as int),
{
    if b == 0 {
        0
    } else {
        let p = (a as i128) * (ONE as i128);
        saturate_wide(quot_wide(p, b as i128))
    }
}

pub fn fx_max(a: i64, b: i64) -> (r: i64)
    ensures
        r == spec_max(a as int, b as int),
{
    if a >= b {
        a
    } else {
        b
    }
}

pub fn fx_sqrt(a: i64) -> (r: i64)
    requires
        is_scalar(a as int),
    ensures
        r == spec_sqrt(a as int),
        0 <= r <= MAX_RAW,
{
    if a <= 0 {
        0
    } else {
        let n = (a as u128) * (ONE as u128);
        let s = floor_sqrt_u128(n);
        proof {
            lemma_floor_sqrt_is(s as int, n as int);
            assert(s <= 1_000_000_000_000) by (nonlinear_arith)
                requires
                    s * s <= n,
                    n <= 1_000_000_000_000_000_000_000_000,
            ;
        }
        s as i64
    }
}

pub proof fn lemma_magnitude_square(x: int)
    ensures
        magnitude(x) * magnitude(x) == x * x,
        magnitude(x) >= 0,
{
    if x < 0 {
        assert((-x) * (-x) == x * x) by (nonlinear_arith);
    }
}

/// A vector component divided by `len`, its length up to rounding:
/// the quotient `k` (in magnitude) with `k * len <= |x| * ONE < (k + 1) * len`.
pub proof fn lemma_unit_component(x: int, len: int)
    requires
        is_scalar(x),
        len >= 100_000,
        x * x <= 4 * len * len,
    ensures
        ({
            let k = magnitude(spec_div(x, len));
            &&& k * len <= magnitude(x) * ONE < (k + 1) * len
            &&& 0 <= k <= 2 * ONE
            &&& spec_div(x, len) * spec_div(x, len) == k * k
        }),
{
    let m = magnitude(x);
    lemma_magnitude_square(x);
    assert(m <= 2 * len) by (nonlinear_arith)
        requires
            m * m <= 4 * len * len,
            m >= 0,
            len > 0,
    ;
    assert(magnitude(x * ONE) == m * ONE) by (nonlinear_arith)
        requires
            m == magnitude(x),
    ;
    lemma_quot_bounds(m * ONE, len);
    let k = (m * ONE) / len;
    assert(k <= 2 * ONE) by (nonlinear_arith)
        requires
            k * len <= m * ONE,
            m <= 2 * len,
            len > 0,
    ;
    let q = quot(x * ONE, len);
    assert(magnitude(len) == len);
    assert(q == k || q == -k);
    assert(saturate(q) == q);
    assert(spec_div(x, len) == q);
    assert(magnitude(q) == k);
    assert(q * q == k * k) by (nonlinear_arith)
        requires
            q == k || q == -k,
    ;
}

pub proof fn lemma_square_below(k: int, m: int, len: int)
    requires
        k >= 0,
        m >= 0,
        len > 0,
        k * len <= m * ONE,
    ensures
        (k * k) * (len * len) <= (m * m) * (ONE * ONE),
{
    assert((k * len) * (k * len) <= (m * ONE) * (m * ONE)) by (nonlinear_arith)
        requires
            0 <= k * len <= m * ONE,
    ;
    assert((k * len) * (k * len) == (k * k) * (len * len)) by (nonlinear_arith);
    assert((m * ONE) * (m * ONE) == (m * m) * (ONE * ONE)) by (nonlinear_arith);
}

pub proof fn lemma_square_above(k: int, m: int, len: int)
    requires
        k >= 0,
        m >= 0,
        len > 0,
        m * ONE < (k + 1) * len,
    ensures
        (m * m) * (ONE * ONE) < (k * k + 2 * k + 1) * (len * len),
{
    assert((m * ONE) * (m * ONE) < ((k + 1) * len) * ((k + 1) * len)) by (nonlinear_arith)
        requires
            0 <= m * ONE < (k + 1) * len,
    ;
    assert(((k + 1) * len) * ((k + 1) * len) == (k * k + 2 * k + 1) * (len * len))
        by (nonlinear_arith);
    assert((m * ONE) * (m * ONE) == (m * m) * (ONE * ONE)) by (nonlinear_arith);
}

/// Fixed-point rescaling of a sum of raw products, saturated.
pub fn fx_rescale(s: i128) -> (r: i64)
    requires
        -3_000_000_000_000_000_000_000_000_000_000_000_000 <= s
            <= 3_000_000_000_000_000_000_000_000_000_000_000_000,
    ensures
        r == saturate(quot(s as int, ONE as int)),
{
    let q = s / (ONE as i128);
    if q > MAX_RAW as i128 {
        MAX_RAW
    } else if q < -(MAX_RAW as i128) {
        -MAX_RAW
    } else {
        q as i64
    }
}

} // verus!
