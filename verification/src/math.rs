//! Fixed-point arithmetic for the filter stages.
//!
//! Two scales are used throughout the crate: blend weights and factors are
//! kept in thousandths (1000 stands for 1.0), while the non-linear power
//! curves run on a 2^16 scale (65536 stands for 1.0). Fractional exponents
//! are given in units of 1/1024, so that an exponent of 1024 stands for 1.

use vstd::prelude::*;
use vstd::arithmetic::div_mod::{lemma_div_is_ordered, lemma_div_multiples_vanish_fancy};
use vstd::arithmetic::mul::lemma_mul_upper_bound;

verus! {

/// Restrict a value to the inclusive range [lo, hi].
pub open spec fn clamp_int(v: int, lo: int, hi: int) -> int {
    if v < lo {
        lo
    } else if v > hi {
        hi
    } else {
        v
    }
}

/// The absolute value.
pub open spec fn abs_int(v: int) -> int {
    if v < 0 { -v } else { v }
}

/// Restrict a value to the 8-bit sample range.
pub open spec fn clamp_255(v: int) -> int {
    clamp_int(v, 0, 255)
}

/// The largest r with r * r <= n (zero for a non-positive n).
pub open spec fn sqrt_floor(n: int) -> int
    decreases n,
{
    if n <= 0 {
        0
    } else {
        let r = sqrt_floor(n - 1);
        if (r + 1) * (r + 1) <= n {
            r + 1
        } else {
            r
        }
    }
}

pub proof fn lemma_sqrt_floor(n: int)
    requires
        0 <= n,
    ensures
        0 <= sqrt_floor(n),
        sqrt_floor(n) * sqrt_floor(n) <= n,
        n < (sqrt_floor(n) + 1) * (sqrt_floor(n) + 1),
    decreases n,
{
    if n > 0 {
        lemma_sqrt_floor(n - 1);
        let r = sqrt_floor(n - 1);
        assert(r * r <= n - 1 < (r + 1) * (r + 1));
        if (r + 1) * (r + 1) <= n {
            assert(sqrt_floor(n) == r + 1);
            assert((r + 1) * (r + 1) < (r + 2) * (r + 2)) by (nonlinear_arith)
                requires r >= 0;
            assert(n <= (r + 1) * (r + 1));
        } else {
            assert(sqrt_floor(n) == r);
            assert(n < (r + 1) * (r + 1));
        }
    }
}

pub proof fn lemma_sqrt_floor_unique(n: int, r: int)
    requires
        0 <= r,
        r * r <= n,
        n < (r + 1) * (r + 1),
    ensures
        r == sqrt_floor(n),
{
    assert(0 <= n) by (nonlinear_arith)
        requires 0 <= r && r * r <= n;
    lemma_sqrt_floor(n);
    let s = sqrt_floor(n);
    if r < s {
        assert((r + 1) * (r + 1) <= s * s) by (nonlinear_arith)
            requires 0 <= r < s;
    }
    if s < r {
        assert((s + 1) * (s + 1) <= r * r) by (nonlinear_arith)
            requires 0 <= s < r;
    }
}

/// An upper bound on the root follows from an upper bound on the input.
pub proof fn lemma_sqrt_floor_le(n: int, b: int)
    requires
        0 <= n,
        0 <= b,
        n <= b * b,
    ensures
        sqrt_floor(n) <= b,
{
    lemma_sqrt_floor(n);
    let s = sqrt_floor(n);
    if s > b {
        assert((b + 1) * (b + 1) <= s * s) by (nonlinear_arith)
            requires 0 <= b < s;
        assert(b * b < (b + 1) * (b + 1)) by (nonlinear_arith)
            requires b >= 0;
    }
}

/// Integer square root by bisection.
pub fn isqrt(n: u64) -> (r: u64)
    requires
        n <= 0x1_0000_0000,
    ensures
        r as int == sqrt_floor(n as int),
        r <= 65536,
{
    let mut lo: u64 = 0;
    let mut hi: u64 = 65537;
    while lo + 1 < hi
        invariant
            lo < hi <= 65537,
            lo * lo <= n,
            n < hi * hi,
        decreases hi - lo,
    {
        let mid = lo + (hi - lo) / 2;
        assert(mid * mid <= 65537 * 65537) by (nonlinear_arith)
            requires 0 <= mid <= 65537;
        if mid * mid <= n {
            lo = mid;
        } else {
            hi = mid;
        }
    }
    proof {
        lemma_sqrt_floor_unique(n as int, lo as int);
    }
    lo
}

/// Product of two 2^16-scale values, truncated back to the 2^16 scale.
pub open spec fn fixmul(a: int, b: int) -> int {
    (a * b) / 65536
}

pub proof fn lemma_fixmul_bound(a: int, b: int)
    requires
        0 <= a <= 65536,
        0 <= b <= 65536,
    ensures
        0 <= fixmul(a, b) <= 65536,
{
    lemma_mul_upper_bound(a, 65536, b, 65536);
    assert(a * b >= 0) by (nonlinear_arith)
        requires a >= 0 && b >= 0;
    lemma_div_is_ordered(0, a * b, 65536);
    lemma_div_is_ordered(a * b, 65536int * 65536, 65536);
}

pub fn fixmul_exec(a: u64, b: u64) -> (r: u64)
    requires
        a <= 65536,
        b <= 65536,
    ensures
        r as int == fixmul(a as int, b as int),
        r <= 65536,
{
    proof {
        lemma_mul_upper_bound(a as int, 65536, b as int, 65536);
        lemma_fixmul_bound(a as int, b as int);
    }
    (a * b) / 65536
}

/// Square root on the 2^16 scale: the root of b/65536, as a 2^16-scale value.
pub open spec fn fsqrt(b: int) -> int {
    sqrt_floor(b * 65536)
}

pub proof fn lemma_fsqrt_bound(b: int)
    requires
        0 <= b <= 65536,
    ensures
        0 <= fsqrt(b) <= 65536,
{
    lemma_mul_upper_bound(b, 65536, 65536, 65536);
    assert(b * 65536 >= 0) by (nonlinear_arith)
        requires b >= 0;
    lemma_sqrt_floor(b * 65536);
    lemma_sqrt_floor_le(b * 65536, 65536);
}

pub fn fsqrt_exec(b: u64) -> (r: u64)
    requires
        b <= 65536,
    ensures
        r as int == fsqrt(b as int),
        r <= 65536,
{
    isqrt(b * 65536)
}

/// x^n for a 2^16-scale base and a whole exponent.
pub open spec fn pow_whole(x: int, n: nat) -> int
    decreases n,
{
    if n == 0 {
        65536
    } else {
        fixmul(x, pow_whole(x, (n - 1) as nat))
    }
}

pub proof fn lemma_pow_whole_bound(x: int, n: nat)
    requires
        0 <= x <= 65536,
    ensures
        0 <= pow_whole(x, n) <= 65536,
    decreases n,
{
    if n > 0 {
        lemma_pow_whole_bound(x, (n - 1) as nat);
        lemma_fixmul_bound(x, pow_whole(x, (n - 1) as nat));
    }
}

pub fn pow_whole_exec(x: u64, n: u32) -> (r: u64)
    requires
        x <= 65536,
    ensures
        r as int == pow_whole(x as int, n as nat),
        r <= 65536,
{
    let mut r: u64 = 65536;
    let mut i: u32 = 0;
    while i < n
        invariant
            i <= n,
            x <= 65536,
            r <= 65536,
            r as int == pow_whole(x as int, i as nat),
        decreases n - i,
    {
        r = fixmul_exec(x, r);
        i = i + 1;
    }
    r
}

/// State of the fractional-power bisection after k rounds: the partial
/// product, the repeatedly square-rooted base, and the remaining exponent
/// bits (the next bit to consume is the 512s place).
pub open spec fn pow_frac_state(x: int, f: int, k: nat) -> (int, int, int)
    decreases k,
{
    if k == 0 {
        (65536, x, f)
    } else {
        let prev = pow_frac_state(x, f, (k - 1) as nat);
        let b = fsqrt(prev.1);
        let r = if prev.2 / 512 % 2 == 1 {
            fixmul(prev.0, b)
        } else {
            prev.0
        };
        (r, b, prev.2 % 512 * 2)
    }
}

/// x^(f/1024) for a 2^16-scale base and ten fractional exponent bits.
pub open spec fn pow_frac(x: int, f: int) -> int {
    pow_frac_state(x, f, 10).0
}

pub proof fn lemma_pow_frac_state_bound(x: int, f: int, k: nat)
    requires
        0 <= x <= 65536,
        0 <= f,
    ensures
        0 <= pow_frac_state(x, f, k).0 <= 65536,
        0 <= pow_frac_state(x, f, k).1 <= 65536,
        0 <= pow_frac_state(x, f, k).2,
    decreases k,
{
    if k > 0 {
        lemma_pow_frac_state_bound(x, f, (k - 1) as nat);
        let prev = pow_frac_state(x, f, (k - 1) as nat);
        lemma_fsqrt_bound(prev.1);
        lemma_fixmul_bound(prev.0, fsqrt(prev.1));
    }
}

pub fn pow_frac_exec(x: u64, f: u32) -> (r: u64)
    requires
        x <= 65536,
        f < 1024,
    ensures
        r as int == pow_frac(x as int, f as int),
        r <= 65536,
{
    let mut r: u64 = 65536;
    let mut base: u64 = x;
    let mut g: u32 = f;
    let mut k: u32 = 0;
    while k < 10
        invariant
            k <= 10,
            x <= 65536,
            r <= 65536,
            base <= 65536,
            g < 1024,
            pow_frac_state(x as int, f as int, k as nat)
                == (r as int, base as int, g as int),
        decreases 10 - k,
    {
        let b = fsqrt_exec(base);
        if g / 512 % 2 == 1 {
            r = fixmul_exec(r, b);
        }
        base = b;
        g = g % 512 * 2;
        k = k + 1;
    }
    r
}

/// x^(e/1024) for a 2^16-scale base x in [0, 1] and an exponent on the
/// 1024 scale: the whole part and the fractional part are combined by a
/// fixed-point multiply.
pub open spec fn fix_pow(x: int, e: int) -> int {
    fixmul(pow_whole(x, (e / 1024) as nat), pow_frac(x, e % 1024))
}

pub proof fn lemma_fix_pow_bound(x: int, e: int)
    requires
        0 <= x <= 65536,
        0 <= e,
    ensures
        0 <= fix_pow(x, e) <= 65536,
{
    lemma_pow_whole_bound(x, (e / 1024) as nat);
    lemma_pow_frac_state_bound(x, e % 1024, 10);
    lemma_fixmul_bound(pow_whole(x, (e / 1024) as nat), pow_frac(x, e % 1024));
}

pub fn fix_pow_exec(x: u64, e: u32) -> (r: u64)
    requires
        x <= 65536,
    ensures
        r as int == fix_pow(x as int, e as int),
        r <= 65536,
{
    let whole = pow_whole_exec(x, e / 1024);
    let frac = pow_frac_exec(x, e % 1024);
    fixmul_exec(whole, frac)
}

/// With every exponent bit clear, the fractional power is one.
pub proof fn lemma_pow_frac_zero(x: int, k: nat)
    ensures
        pow_frac_state(x, 0, k).0 == 65536,
        pow_frac_state(x, 0, k).2 == 0,
    decreases k,
{
    if k > 0 {
        lemma_pow_frac_zero(x, (k - 1) as nat);
    }
}

/// An exponent of exactly one leaves the base unchanged.
pub proof fn lemma_fix_pow_one(x: int)
    requires
        0 <= x <= 65536,
    ensures
        fix_pow(x, 1024) == x,
{
    lemma_pow_frac_zero(x, 10);
    assert(pow_whole(x, 0nat) == 65536);
    assert(pow_whole(x, 1nat) == fixmul(x, 65536));
    assert(x * 65536 / 65536 == x) by {
        lemma_div_multiples_vanish_fancy(x, 0, 65536);
        assert(65536 * x == x * 65536) by (nonlinear_arith);
    }
    assert(fix_pow(x, 1024) == fixmul(x, 65536));
}

} // verus!
