//! Small integer helpers shared by the games: clamping, signs, and the
//! additions on coordinates and counters that must never wrap.

use vstd::prelude::*;

verus! {

/// The value of `x` held inside `[lo, hi]`.
pub open spec fn clamp_int(x: int, lo: int, hi: int) -> int {
    if x < lo {
        lo
    } else if x > hi {
        hi
    } else {
        x
    }
}

/// The sign of `x`: `-1`, `0` or `1`.
pub open spec fn sign(x: int) -> int {
    if x > 0 {
        1
    } else if x < 0 {
        -1
    } else {
        0
    }
}

/// A count held at `u32::MAX` rather than wrapping.
pub open spec fn sat_u32(x: int) -> u32 {
    clamp_int(x, 0, u32::MAX as int) as u32
}

/// `|x|`.
pub open spec fn abs_int(x: int) -> int {
    if x < 0 {
        -x
    } else {
        x
    }
}

/// An `i32` held inside `[lo, hi]`.
pub fn clamp32(x: i32, lo: i32, hi: i32) -> (r: i32)
    requires
        lo <= hi,
    ensures
        r == clamp_int(x as int, lo as int, hi as int),
{
    if x < lo {
        lo
    } else if x > hi {
        hi
    } else {
        x
    }
}

/// An `i16` held inside `[lo, hi]`.
pub fn clamp16(x: i16, lo: i16, hi: i16) -> (r: i16)
    requires
        lo <= hi,
    ensures
        r == clamp_int(x as int, lo as int, hi as int),
{
    if x < lo {
        lo
    } else if x > hi {
        hi
    } else {
        x
    }
}

/// A mathematical value brought into the `i16` range: exact whenever it fits.
pub fn fit16(x: i32) -> (r: i16)
    ensures
        r == clamp_int(x as int, i16::MIN as int, i16::MAX as int),
{
    if x < i16::MIN as i32 {
        i16::MIN
    } else if x > i16::MAX as i32 {
        i16::MAX
    } else {
        x as i16
    }
}

/// A wide mathematical value brought into the `i16` range: exact whenever
/// it fits.
pub fn fit16w(x: i64) -> (r: i16)
    ensures
        r == clamp_int(x as int, i16::MIN as int, i16::MAX as int),
{
    if x < i16::MIN as i64 {
        i16::MIN
    } else if x > i16::MAX as i64 {
        i16::MAX
    } else {
        x as i16
    }
}

/// `a + b` on a board coordinate; exact whenever the sum is an `i16`.
pub fn add16(a: i16, b: i16) -> (r: i16)
    ensures
        r == clamp_int(a + b, i16::MIN as int, i16::MAX as int),
{
    fit16(a as i32 + b as i32)
}

/// `a - b` on a board coordinate; exact whenever the difference is an `i16`.
pub fn sub16(a: i16, b: i16) -> (r: i16)
    ensures
        r == clamp_int(a - b, i16::MIN as int, i16::MAX as int),
{
    fit16(a as i32 - b as i32)
}

/// `a * b` on board coordinates; exact whenever the product is an `i16`.
pub fn mul16(a: i16, b: i16) -> (r: i16)
    ensures
        r == clamp_int(a * b, i16::MIN as int, i16::MAX as int),
{
    assert(-32768 * 32768 <= a * b <= 32768 * 32768) by (nonlinear_arith)
        requires
            -32768 <= a <= 32767,
            -32768 <= b <= 32767,
    ;
    fit16(a as i32 * b as i32)
}

/// The sign of a board offset.
pub fn sig16(x: i16) -> (r: i16)
    ensures
        r == sign(x as int),
{
    if x > 0 {
        1
    } else if x < 0 {
        -1
    } else {
        0
    }
}

/// The sign of `a - b`, worked out without the subtraction wrapping.
pub fn sig_diff(a: i16, b: i16) -> (r: i16)
    ensures
        r == sign(a - b),
{
    if a > b {
        1
    } else if a < b {
        -1
    } else {
        0
    }
}

/// `|a - b|` between two board coordinates, as an `i32` that cannot wrap.
pub fn dist16(a: i16, b: i16) -> (r: i32)
    ensures
        r == abs_int(a - b),
{
    let d = a as i32 - b as i32;
    if d < 0 {
        -d
    } else {
        d
    }
}

/// A mathematical value brought into the `i32` range: exact whenever it fits.
pub fn fit32(x: i64) -> (r: i32)
    ensures
        r == clamp_int(x as int, i32::MIN as int, i32::MAX as int),
{
    if x < i32::MIN as i64 {
        i32::MIN
    } else if x > i32::MAX as i64 {
        i32::MAX
    } else {
        x as i32
    }
}

/// `a + b` on hit points or damage; exact whenever the sum is an `i32`.
pub fn add32(a: i32, b: i32) -> (r: i32)
    ensures
        r == clamp_int(a + b, i32::MIN as int, i32::MAX as int),
{
    fit32(a as i64 + b as i64)
}

/// `a - b` on hit points; exact whenever the difference is an `i32`.
pub fn sub32(a: i32, b: i32) -> (r: i32)
    ensures
        r == clamp_int(a - b, i32::MIN as int, i32::MAX as int),
{
    fit32(a as i64 - b as i64)
}

/// `a * b` on damage; exact whenever the product is an `i32`.
pub fn mul32(a: i32, b: i32) -> (r: i32)
    ensures
        r == clamp_int(a * b, i32::MIN as int, i32::MAX as int),
{
    assert(-0x8000_0000 * 0x8000_0000 <= a * b <= 0x8000_0000 * 0x8000_0000) by (nonlinear_arith)
        requires
            -0x8000_0000 <= a <= 0x7fff_ffff,
            -0x8000_0000 <= b <= 0x7fff_ffff,
    ;
    fit32(a as i64 * b as i64)
}

/// `a / d` rounded toward zero, as Rust's integer division does it.
pub open spec fn quot(a: int, d: int) -> int {
    if a >= 0 { a / d } else { -((-a) / d) }
}

/// `a / d` on hit points, rounded toward zero.
pub fn quot32(a: i32, d: i32) -> (r: i32)
    requires
        d > 0,
    ensures
        r == quot(a as int, d as int),
{
    if a >= 0 {
        (a as u32 / d as u32) as i32
    } else {
        let m: u32 = if a == i32::MIN { 0x8000_0000 } else { (-a) as u32 };
        -((m / d as u32) as i64) as i32
    }
}

/// `a * b` on a counter, held at `u32::MAX` rather than wrapping.
pub fn mulu32(a: u32, b: u32) -> (r: u32)
    ensures
        r == (if a * b > u32::MAX { u32::MAX as int } else { a * b }),
{
    assert(a * b <= 0xffff_ffff * 0xffff_ffff) by (nonlinear_arith)
        requires
            a <= 0xffff_ffff,
            b <= 0xffff_ffff,
    ;
    let p = a as u64 * b as u64;
    if p > u32::MAX as u64 {
        u32::MAX
    } else {
        p as u32
    }
}

/// The LCG step every game here shares: the next state for a seed.
pub open spec fn lcg_next(state: u64) -> u64 {
    (state * 6364136223846793005 + 1442695040888963407) as u64
}

/// Advance an LCG state and hand back the next state with its top bits.
pub fn lcg(state: u64) -> (r: (u64, u64))
    ensures
        r.0 == lcg_next(state),
        r.1 == r.0 >> 33,
        r.1 < 0x8000_0000,
{
    let next = state.wrapping_mul(6364136223846793005).wrapping_add(1442695040888963407);
    assert(next == lcg_next(state)) by (bit_vector)
        requires
            next == state.wrapping_mul(6364136223846793005).wrapping_add(1442695040888963407),
    ;
    let out = next >> 33;
    assert(out < 0x8000_0000) by (bit_vector)
        requires
            out == next >> 33,
    ;
    (next, out)
}

/// Going `d` places round a ring of `n` from place `k` and then `d` places
/// back lands on `k` again.
pub proof fn back_round(k: int, d: int, n: int)
    requires
        0 <= k < n,
    ensures
        0 <= (k + d) % n < n,
        ((k + d) % n - d) % n == k,
{
    let m = (k + d) % n;
    let q = (k + d) / n;
    vstd::arithmetic::div_mod::lemma_fundamental_div_mod(k + d, n);
    vstd::arithmetic::div_mod::lemma_mod_bound(k + d, n);
    assert(m - d == n * (0 - q) + k) by (nonlinear_arith)
        requires
            k + d == n * q + m,
    ;
    vstd::arithmetic::div_mod::lemma_mod_multiples_vanish(0 - q, k, n);
    vstd::arithmetic::div_mod::lemma_small_mod(k as nat, n as nat);
}

} // verus!
