//! Q16.16 fixed-point scalar arithmetic: every quantity is an `i64` holding
//! its real value times 65536. Products and quotients truncate toward zero.
//! Wide (`i128`) intermediates keep every step exact before the final
//! narrowing, so each operation's contract states its result precisely.

use vstd::prelude::*;
use vstd::arithmetic::div_mod::lemma_fundamental_div_mod;
use vstd::arithmetic::div_mod::lemma_remainder_lower;
use vstd::arithmetic::div_mod::lemma_remainder_upper;
use vstd::arithmetic::div_mod::lemma_mod_bound;

verus! {

/// One in Q16.16.
pub const FX_ONE: i64 = 65536;

/// Half of one in Q16.16, the offset of a pixel's center.
pub const FX_HALF: i64 = 32768;

/// Truncating (toward zero) division of `a` by `b`, the rounding that the
/// machine division instruction performs.
pub open spec fn tz_div(a: int, b: int) -> int {
    let q = (if a >= 0 { a } else { -a }) / (if b >= 0 { b } else { -b });
    if (a >= 0) == (b >= 0) {
        q
    } else {
        -q
    }
}

/// The Q16.16 product of `a` and `b`: the exact integer product scaled
/// back down by 65536, truncated toward zero.
pub open spec fn fx_mul_spec(a: int, b: int) -> int {
    tz_div(a * b, 65536)
}

/// The Q16.16 quotient of `a` by `b`: `a` scaled up by 65536, then divided
/// by `b`, truncated toward zero.
pub open spec fn fx_div_spec(a: int, b: int) -> int {
    tz_div(a * 65536, b)
}

/// `x` clamped into `[lo, hi]`.
pub open spec fn clamp_spec(x: int, lo: int, hi: int) -> int {
    if x < lo {
        lo
    } else if x > hi {
        hi
    } else {
        x
    }
}

/// The truncated quotient, scaled back up, differs from the dividend by less
/// than the divisor, and never passes it; the quotient's magnitude never
/// exceeds the dividend's.
pub proof fn lemma_tz_div(a: int, b: int)
    requires
        b != 0,
    ensures
        abs_spec(a - tz_div(a, b) * b) < abs_spec(b),
        abs_spec(tz_div(a, b) * b) <= abs_spec(a),
        abs_spec(tz_div(a, b)) <= abs_spec(a),
        a >= 0 && b > 0 ==> tz_div(a, b) == a / b,
        a >= 0 && b > 0 ==> tz_div(a, b) >= 0,
{
    let aa = abs_spec(a);
    let ab = abs_spec(b);
    lemma_fundamental_div_mod(aa, ab);
    lemma_remainder_lower(aa, ab);
    lemma_remainder_upper(aa, ab);
    let q = aa / ab;
    assert(0 <= q * ab <= aa && aa - q * ab < ab);
    assert(q <= q * ab) by (nonlinear_arith)
        requires
            ab >= 1,
            q >= 0,
    ;
    assert(tz_div(a, b) == if (a >= 0) == (b >= 0) { q } else { -q });
    assert(tz_div(a, b) * b == if a >= 0 { q * ab } else { -(q * ab) }) by (nonlinear_arith)
        requires
            q >= 0,
            aa == abs_spec(a),
            ab == abs_spec(b),
            tz_div(a, b) == if (a >= 0) == (b >= 0) { q } else { -q },
            b != 0,
            aa == if a >= 0 { a } else { -a },
            ab == if b >= 0 { b } else { -b },
    ;
}

/// The magnitude of a truncated quotient is bounded by any bound on the
/// dividend divided by any lower bound on the divisor.
pub proof fn lemma_tz_div_bound(a: int, b: int, aa: int, bb: int)
    requires
        b != 0,
        abs_spec(a) <= aa,
        abs_spec(b) >= bb,
        bb >= 1,
    ensures
        abs_spec(tz_div(a, b)) <= aa / bb,
{
    lemma_tz_div(a, b);
    lemma_fundamental_div_mod(aa, bb);
    lemma_mod_bound(aa, bb);
    let q = abs_spec(tz_div(a, b));
    assert(q * abs_spec(b) <= abs_spec(a)) by (nonlinear_arith)
        requires
            abs_spec(tz_div(a, b) * b) <= abs_spec(a),
            q == abs_spec(tz_div(a, b)),
            b != 0,
    ;
    assert(q <= aa / bb) by (nonlinear_arith)
        requires
            q * abs_spec(b) <= abs_spec(a),
            abs_spec(a) <= aa,
            abs_spec(b) >= bb,
            bb >= 1,
            q >= 0,
            aa / bb >= 0,
            aa == bb * (aa / bb) + aa % bb,
            0 <= aa % bb < bb,
    {
        if q > aa / bb {
            assert(q * bb >= (aa / bb + 1) * bb);
            assert(q * abs_spec(b) >= q * bb);
        }
    }
}

/// The magnitude of an integer.
pub open spec fn abs_spec(x: int) -> int {
    if x >= 0 {
        x
    } else {
        -x
    }
}

/// Truncating division on `i128`, the working width for Q16.16 intermediates.
pub fn div_tz_i128(a: i128, b: i128) -> (r: i128)
    requires
        b != 0,
        a > i128::MIN,
    ensures
        r == tz_div(a as int, b as int),
{
    a.checked_div(b).unwrap()
}

/// The exact product of two `i64` values, computed at `i128` width.
pub fn wide_mul(a: i64, b: i64) -> (r: i128)
    ensures
        r == a as int * b as int,
        -0x4000_0000_0000_0000_0000_0000_0000_0000 <= r
            <= 0x4000_0000_0000_0000_0000_0000_0000_0000,
{
    proof {
        let p: int = a as int * b as int;
        assert(-0x4000_0000_0000_0000_0000_0000_0000_0000 <= p
            <= 0x4000_0000_0000_0000_0000_0000_0000_0000) by (nonlinear_arith)
            requires
                p == a as int * b as int,
                -0x8000_0000_0000_0000 <= a as int <= 0x7fff_ffff_ffff_ffff,
                -0x8000_0000_0000_0000 <= b as int <= 0x7fff_ffff_ffff_ffff,
        ;
    }
    (a as i128) * (b as i128)
}

/// Q16.16 multiplication.
pub fn fx_mul(a: i64, b: i64) -> (r: i64)
    requires
        i64::MIN <= fx_mul_spec(a as int, b as int) <= i64::MAX,
    ensures
        r == fx_mul_spec(a as int, b as int),
{
    let p = wide_mul(a, b);
    let q = div_tz_i128(p, 65536);
    q as i64
}

/// Q16.16 division.
pub fn fx_div(a: i64, b: i64) -> (r: i64)
    requires
        b != 0,
        i64::MIN <= fx_div_spec(a as int, b as int) <= i64::MAX,
    ensures
        r == fx_div_spec(a as int, b as int),
{
    let p = (a as i128) * 65536;
    let q = div_tz_i128(p, b as i128);
    q as i64
}

/// `x` clamped into `[lo, hi]`.
pub fn clamp_i64(x: i64, lo: i64, hi: i64) -> (r: i64)
    requires
        lo <= hi,
    ensures
        r == clamp_spec(x as int, lo as int, hi as int),
{
    if x < lo {
        lo
    } else if x > hi {
        hi
    } else {
        x
    }
}

/// The magnitude of a product is bounded by the product of bounds on its
/// factors.
pub proof fn lemma_abs_mul_bound(a: int, b: int, aa: int, bb: int)
    requires
        abs_spec(a) <= aa,
        abs_spec(b) <= bb,
        0 <= aa,
        0 <= bb,
    ensures
        abs_spec(a * b) <= aa * bb,
{
    assert(abs_spec(a * b) <= aa * bb) by (nonlinear_arith)
        requires
            abs_spec(a) <= aa,
            abs_spec(b) <= bb,
            0 <= aa,
            0 <= bb,
    ;
}

/// A Q16.16 product's magnitude is bounded by the product of bounds on its
/// factors, scaled down by 65536.
pub proof fn lemma_fx_mul_bound(a: int, b: int, aa: int, bb: int)
    requires
        abs_spec(a) <= aa,
        abs_spec(b) <= bb,
        0 <= aa,
        0 <= bb,
    ensures
        abs_spec(fx_mul_spec(a, b)) <= aa * bb / 65536,
{
    assert(abs_spec(a * b) <= aa * bb) by (nonlinear_arith)
        requires
            abs_spec(a) <= aa,
            abs_spec(b) <= bb,
            0 <= aa,
            0 <= bb,
    ;
    lemma_tz_div_bound(a * b, 65536, aa * bb, 65536);
}

/// The integer square root: the greatest `r` with `r * r <= n`.
pub open spec fn sqrt_floor(n: int) -> int
    decreases n,
{
    if n <= 0 {
        0
    } else {
        let p = sqrt_floor(n - 1);
        if (p + 1) * (p + 1) <= n {
            p + 1
        } else {
            p
        }
    }
}

/// `sqrt_floor` is characterized by squaring: it is nonnegative, its square
/// is at most `n`, and the next square is beyond `n`.
pub proof fn lemma_sqrt_floor_bounds(n: int)
    requires
        n >= 0,
    ensures
        sqrt_floor(n) >= 0,
        sqrt_floor(n) * sqrt_floor(n) <= n,
        n < (sqrt_floor(n) + 1) * (sqrt_floor(n) + 1),
        sqrt_floor(n) <= n,
    decreases n,
{
    if n == 0 {
    } else {
        lemma_sqrt_floor_bounds(n - 1);
        let p = sqrt_floor(n - 1);
        assert((p + 1) * (p + 1) <= n ==> ((p + 1) * (p + 1) <= n && n < (p + 2) * (p + 2)))
            by (nonlinear_arith)
            requires
                p >= 0,
                n - 1 < (p + 1) * (p + 1),
        ;
        assert(sqrt_floor(n) <= n) by (nonlinear_arith)
            requires
                sqrt_floor(n) >= 0,
                n >= 1,
                sqrt_floor(n) * sqrt_floor(n) <= n,
        ;
    }
}

/// Any nonnegative `r` whose square brackets `n` is `sqrt_floor(n)`.
pub proof fn lemma_sqrt_floor_unique(n: int, r: int)
    requires
        n >= 0,
        r >= 0,
        r * r <= n,
        n < (r + 1) * (r + 1),
    ensures
        r == sqrt_floor(n),
{
    lemma_sqrt_floor_bounds(n);
    let s = sqrt_floor(n);
    assert(r == s) by (nonlinear_arith)
        requires
            r >= 0,
            s >= 0,
            r * r <= n,
            n < (r + 1) * (r + 1),
            s * s <= n,
            n < (s + 1) * (s + 1),
    ;
}

/// The integer square root of a `u128`, by bisection.
pub fn isqrt_u128(n: u128) -> (r: u128)
    requires
        n < 0x4000_0000_0000_0000_0000_0000_0000_0000,
    ensures
        r == sqrt_floor(n as int),
{
    proof {
        assert((1u128 << 63) == 0x8000_0000_0000_0000) by (bit_vector);
    }
    if n == 0 {
        proof {
            lemma_sqrt_floor_bounds(0);
        }
        return 0;
    }
    let mut lo: u128 = 0;
    let mut hi: u128 = 1u128 << 63;
    proof {
        assert(hi * hi > n) by (nonlinear_arith)
            requires
                hi == 0x8000_0000_0000_0000,
                n < 0x4000_0000_0000_0000_0000_0000_0000_0000,
        ;
    }
    while lo + 1 < hi
        invariant
            lo < hi <= 0x8000_0000_0000_0000,
            lo * lo <= n,
            hi * hi > n,
        decreases hi - lo,
    {
        let mid = lo + (hi - lo) / 2;
        assert(lo < mid < hi);
        if mid <= n / mid {
            proof {
                lemma_fundamental_div_mod(n as int, mid as int);
                lemma_mod_bound(n as int, mid as int);
                assert(mid * mid <= n) by (nonlinear_arith)
                    requires
                        mid >= 1,
                        mid <= n as int / mid as int,
                        n as int == mid as int * (n as int / mid as int) + n as int % mid as int,
                        0 <= n as int % mid as int,
                ;
            }
            lo = mid;
        } else {
            proof {
                lemma_fundamental_div_mod(n as int, mid as int);
                lemma_mod_bound(n as int, mid as int);
                assert(mid * mid > n) by (nonlinear_arith)
                    requires
                        mid >= 1,
                        mid > n as int / mid as int,
                        n as int == mid as int * (n as int / mid as int) + n as int % mid as int,
                        (n as int % mid as int) < mid as int,
                ;
            }
            hi = mid;
        }
    }
    proof {
        assert(hi == lo + 1);
        lemma_sqrt_floor_unique(n as int, lo as int);
    }
    lo
}

/// `b` raised to the power `e` in Q16.16, by repeated truncating
/// multiplication starting from one.
pub open spec fn fx_pow_spec(b: int, e: nat) -> int
    decreases e,
{
    if e == 0 {
        65536
    } else {
        fx_mul_spec(fx_pow_spec(b, (e - 1) as nat), b)
    }
}

/// A Q16.16 product of factors in `[0, 1]` stays in `[0, 1]`.
pub proof fn lemma_fx_mul_unit_range(a: int, b: int)
    requires
        0 <= a <= 65536,
        0 <= b <= 65536,
    ensures
        0 <= fx_mul_spec(a, b) <= 65536,
{
    lemma_tz_div(a * b, 65536);
    assert(0 <= a * b <= 65536 * 65536) by (nonlinear_arith)
        requires
            0 <= a <= 65536,
            0 <= b <= 65536,
    ;
    lemma_tz_div_bound(a * b, 65536, 65536int * 65536int, 65536);
}

/// A Q16.16 power of a base in `[0, 1]`, used for the specular
/// shininess exponent.
pub fn fx_pow_unit(b: i64, e: u32) -> (r: i64)
    requires
        0 <= b <= FX_ONE,
    ensures
        r == fx_pow_spec(b as int, e as nat),
        0 <= r <= FX_ONE,
{
    let mut acc: i64 = FX_ONE;
    let mut i: u32 = 0;
    while i < e
        invariant
            0 <= i <= e,
            0 <= b <= 65536,
            acc == fx_pow_spec(b as int, i as nat),
            0 <= acc <= 65536,
        decreases e - i,
    {
        proof {
            lemma_fx_mul_unit_range(acc as int, b as int);
        }
        acc = fx_mul(acc, b);
        i = i + 1;
    }
    acc
}

/// Rounding to the nearest integer pixel, halves away from zero: the Q16.16
/// value `x` becomes a whole number of pixels.
pub open spec fn fx_round_spec(x: int) -> int {
    if x >= 0 {
        (x + 32768) / 65536
    } else {
        -((-x + 32768) / 65536)
    }
}

/// Rounds a Q16.16 value to the nearest whole pixel, halves away from zero.
pub fn fx_round(x: i64) -> (r: i64)
    ensures
        r == fx_round_spec(x as int),
{
    if x >= 0 {
        let y = div_tz_i128(x as i128 + 32768, 65536);
        proof {
            lemma_tz_div(x as int + 32768, 65536);
            lemma_fundamental_div_mod(x as int + 32768, 65536);
            lemma_remainder_lower(x as int + 32768, 65536);
            lemma_remainder_upper(x as int + 32768, 65536);
        }
        y as i64
    } else {
        let nx = -(x as i128);
        let y = div_tz_i128(nx + 32768, 65536);
        proof {
            lemma_tz_div(nx as int + 32768, 65536);
            lemma_fundamental_div_mod(nx as int + 32768, 65536);
            lemma_remainder_lower(nx as int + 32768, 65536);
            lemma_remainder_upper(nx as int + 32768, 65536);
        }
        -(y as i64)
    }
}

} // verus!
