//! Binary fixed-point reals: the integer `r` stands for the real `r / ONE`.
//! Every rounding goes toward negative infinity.
use vstd::prelude::*;

verus! {

/// A real number in fixed point with twenty fraction bits.
pub type Real = i64;

/// The fixed-point representation of 1.
pub const ONE: i64 = 1048576;

/// True when `v` can be held in a `Real`.
pub open spec fn fits(v: int) -> bool {
    i64::MIN <= v <= i64::MAX
}

/// The fixed-point value of the integer `n`.
pub open spec fn of_int(n: int) -> int {
    n * ONE
}

/// Rounded product of two fixed-point values.
pub open spec fn fmul(a: int, b: int) -> int {
    (a * b) / (ONE as int)
}

/// Rounded quotient `a / b` of two fixed-point values (`b != 0`).
pub open spec fn fdiv(a: int, b: int) -> int {
    if b > 0 {
        (a * ONE) / b
    } else {
        (-(a * ONE)) / (-b)
    }
}

/// `r` is the integer square root of `n`: the largest integer whose square is at most `n`.
pub open spec fn is_isqrt(n: int, r: int) -> bool {
    0 <= r && r * r <= n && n < (r + 1) * (r + 1)
}

/// The integer square root of `n`.
pub open spec fn isqrt(n: int) -> int {
    choose|r: int| is_isqrt(n, r)
}

/// Rounded square root of a non-negative fixed-point value.
pub open spec fn fsqrt(a: int) -> int {
    isqrt(a * ONE)
}

/// There is at most one integer square root.
pub proof fn lemma_isqrt_unique(n: int, r1: int, r2: int)
    requires
        is_isqrt(n, r1),
        is_isqrt(n, r2),
    ensures
        r1 == r2,
{
    if r1 < r2 {
        assert((r1 + 1) * (r1 + 1) <= r2 * r2) by (nonlinear_arith)
            requires
                0 <= r1 + 1 <= r2,
        ;
    } else if r2 < r1 {
        assert((r2 + 1) * (r2 + 1) <= r1 * r1) by (nonlinear_arith)
            requires
                0 <= r2 + 1 <= r1,
        ;
    }
}

/// Every natural number has an integer square root.
pub proof fn lemma_isqrt_exists(n: nat)
    ensures
        is_isqrt(n as int, isqrt(n as int)),
    decreases n,
{
    if n == 0 {
        assert(is_isqrt(0, 0));
    } else {
        lemma_isqrt_exists((n - 1) as nat);
        let r = isqrt(n - 1);
        if (r + 1) * (r + 1) <= n {
            assert((r + 1) * (r + 1) == n);
            assert(n < (r + 2) * (r + 2)) by (nonlinear_arith)
                requires
                    (r + 1) * (r + 1) == n,
                    r >= 0,
            ;
            assert(is_isqrt(n as int, r + 1));
        } else {
            assert(is_isqrt(n as int, r));
        }
    }
}

/// An integer square root, once found, is the one `isqrt` names.
pub proof fn lemma_isqrt_is(n: int, r: int)
    requires
        is_isqrt(n, r),
    ensures
        isqrt(n) == r,
{
    assert(exists|s: int| is_isqrt(n, s));
    let s = isqrt(n);
    lemma_isqrt_unique(n, r, s);
}

/// The square root of a perfect square.
pub proof fn lemma_isqrt_square(k: int)
    requires
        k >= 0,
    ensures
        isqrt(k * k) == k,
{
    assert(k * k < (k + 1) * (k + 1)) by (nonlinear_arith)
        requires
            k >= 0,
    ;
    lemma_isqrt_is(k * k, k);
}

/// `d` raised to the whole power `n`, by repeated rounded multiplication.
pub open spec fn pow_whole(d: int, n: nat) -> int
    decreases n,
{
    if n == 0 {
        ONE as int
    } else {
        fmul(pow_whole(d, (n - 1) as nat), d)
    }
}

/// The fractional part of a power, one binary digit of the exponent at a time:
/// `root` is the base's last root taken, `w` the weight of the next digit of
/// `rem`, and each step takes one more square root and multiplies it into `acc`
/// where the digit is set.
pub open spec fn pow_frac(acc: int, root: int, rem: int, w: nat) -> int
    decreases w,
{
    if w == 0 {
        acc
    } else {
        let r = fsqrt(root);
        if rem >= w {
            pow_frac(fmul(acc, r), r, rem - w, w / 2)
        } else {
            pow_frac(acc, r, rem, w / 2)
        }
    }
}

/// Rounded power `d ^ t` of fixed-point values, `t >= 0`: the whole part of
/// the exponent by repeated multiplication, the fraction by repeated roots.
pub open spec fn fpow(d: int, t: int) -> int {
    pow_frac(pow_whole(d, (t / ONE as int) as nat), d, t % ONE as int, (ONE / 2) as nat)
}

/// Products and square roots of values in `[0, 1]` stay in `[0, 1]`, and 1 is kept.
pub proof fn lemma_unit_interval(a: int, b: int)
    requires
        0 <= a <= ONE,
        0 <= b <= ONE,
    ensures
        0 <= fmul(a, b) <= ONE,
        0 <= fsqrt(a) <= ONE,
        fmul(a, ONE as int) == a,
        fsqrt(ONE as int) == ONE,
{
    assert(0 <= a * b <= 1048576 * 1048576) by (nonlinear_arith)
        requires
            0 <= a <= 1048576,
            0 <= b <= 1048576,
    ;
    lemma_isqrt_square(ONE as int);
    let s = fsqrt(a);
    lemma_isqrt_exists((a * ONE) as nat);
    if s > ONE {
        assert(s * s > 1048576 * 1048576) by (nonlinear_arith)
            requires
                s > 1048576,
        ;
    }
}

/// Floor division by a positive divisor.
fn floor_div(n: i128, d: i128) -> (q: i128)
    requires
        d > 0,
        fits(n / d),
    ensures
        q == n / d,
{
    match n.checked_div_euclid(d) {
        Some(q) => q,
        None => 0,
    }
}

/// The fixed-point value of an integer.
pub fn from_int(n: i64) -> (r: Real)
    requires
        fits(of_int(n as int)),
    ensures
        r == of_int(n as int),
{
    n * ONE
}

/// The fixed-point value nearest below the integer ratio `num / den`.
pub fn from_ratio(num: i64, den: i64) -> (r: Real)
    requires
        den != 0,
        fits(fdiv(num as int, den as int)),
    ensures
        r == fdiv(num as int, den as int),
{
    real_div(num, den)
}

/// Rounded quotient of two fixed-point values.
pub fn real_div(a: Real, b: Real) -> (r: Real)
    requires
        b != 0,
        fits(fdiv(a as int, b as int)),
    ensures
        r == fdiv(a as int, b as int),
{
    let n = (a as i128) * 1048576;
    assert(-0x10_0000_0000_0000_0000_0000 <= n <= 0x10_0000_0000_0000_0000_0000);
    let q = if b > 0 {
        floor_div(n, b as i128)
    } else {
        floor_div(-n, -(b as i128))
    };
    q as i64
}

/// Rounded product of two fixed-point values.
pub fn real_mul(a: Real, b: Real) -> (r: Real)
    requires
        fits(fmul(a as int, b as int)),
    ensures
        r == fmul(a as int, b as int),
{
    assert((a as int) * (b as int) <= 0x4000_0000_0000_0000_0000_0000_0000_0000) by (nonlinear_arith)
        requires
            i64::MIN <= a <= i64::MAX,
            i64::MIN <= b <= i64::MAX,
    ;
    assert((a as int) * (b as int) >= -0x4000_0000_0000_0000_0000_0000_0000_0000) by (nonlinear_arith)
        requires
            i64::MIN <= a <= i64::MAX,
            i64::MIN <= b <= i64::MAX,
    ;
    let q = floor_div((a as i128) * (b as i128), ONE as i128);
    q as i64
}

/// Rounded product of two fixed-point values, or `None` where it does not fit.
pub fn checked_real_mul(a: Real, b: Real) -> (r: Option<Real>)
    ensures
        r == (if fits(fmul(a as int, b as int)) {
            Some(fmul(a as int, b as int) as i64)
        } else {
            None
        }),
{
    assert((a as int) * (b as int) <= 0x4000_0000_0000_0000_0000_0000_0000_0000) by (nonlinear_arith)
        requires
            i64::MIN <= a <= i64::MAX,
            i64::MIN <= b <= i64::MAX,
    ;
    assert((a as int) * (b as int) >= -0x4000_0000_0000_0000_0000_0000_0000_0000) by (nonlinear_arith)
        requires
            i64::MIN <= a <= i64::MAX,
            i64::MIN <= b <= i64::MAX,
    ;
    let p = (a as i128) * (b as i128);
    let q = match p.checked_div_euclid(ONE as i128) {
        Some(q) => q,
        None => 0,
    };
    if q < i64::MIN as i128 || q > i64::MAX as i128 {
        None
    } else {
        Some(q as i64)
    }
}

/// Integer square root, by bisection.
pub fn int_sqrt(n: u128) -> (r: u128)
    ensures
        is_isqrt(n as int, r as int),
        r == isqrt(n as int),
{
    let mut lo: u128 = 0;
    let mut hi: u128 = 0x1_0000_0000_0000_0000;
    assert(n < hi * hi);
    while hi - lo > 1
        invariant
            lo < hi <= 0x1_0000_0000_0000_0000,
            lo * lo <= n,
            n < hi * hi,
        decreases hi - lo,
    {
        let mid = lo + (hi - lo) / 2;
        assert(mid * mid <= 0xffff_ffff_ffff_fffe_0000_0000_0000_0001) by (nonlinear_arith)
            requires
                mid < 0x1_0000_0000_0000_0000,
        ;
        if mid * mid <= n {
            lo = mid;
        } else {
            hi = mid;
        }
    }
    assert(hi == lo + 1);
    proof {
        lemma_isqrt_is(n as int, lo as int);
    }
    lo
}

/// Rounded square root of a non-negative fixed-point value.
pub fn real_sqrt(a: Real) -> (r: Real)
    requires
        a >= 0,
    ensures
        r == fsqrt(a as int),
        0 <= r,
{
    let n = (a as u128) * 1048576;
    assert(n <= 0x10_0000_0000_0000_0000_0000);
    let s = int_sqrt(n);
    assert(s < 0x8000_0000_0000_0000) by {
        if s >= 0x8000_0000_0000_0000 {
            assert(s * s >= 0x8000_0000_0000_0000 * 0x8000_0000_0000_0000) by (nonlinear_arith)
                requires
                    s >= 0x8000_0000_0000_0000,
            ;
        }
    }
    assert(n as int == (a as int) * ONE);
    s as i64
}

/// Rounded power `d ^ t` of a base in `[0, 1]` and a non-negative exponent.
pub fn real_pow(d: Real, t: Real) -> (r: Real)
    requires
        0 <= d <= ONE,
        t >= 0,
    ensures
        r == fpow(d as int, t as int),
        0 <= r <= ONE,
        d == ONE ==> r == ONE,
{
    let whole: i64 = t / ONE;
    let mut acc: i64 = ONE;
    let mut i: i64 = 0;
    while i < whole
        invariant
            0 <= i <= whole,
            whole == t / ONE,
            0 <= d <= ONE,
            acc == pow_whole(d as int, i as nat),
            0 <= acc <= ONE,
            d == ONE ==> acc == ONE,
        decreases whole - i,
    {
        proof {
            lemma_unit_interval(acc as int, d as int);
        }
        acc = real_mul(acc, d);
        i = i + 1;
    }
    let mut root: i64 = d;
    let mut rem: i64 = t % ONE;
    let mut w: i64 = ONE / 2;
    while w > 0
        invariant
            w >= 0,
            0 <= acc <= ONE,
            0 <= root <= ONE,
            d == ONE ==> acc == ONE && root == ONE,
            pow_frac(acc as int, root as int, rem as int, w as nat) == fpow(d as int, t as int),
        decreases w,
    {
        proof {
            lemma_unit_interval(root as int, root as int);
        }
        root = real_sqrt(root);
        proof {
            lemma_unit_interval(acc as int, root as int);
        }
        if rem >= w {
            acc = real_mul(acc, root);
            rem = rem - w;
        }
        w = w / 2;
    }
    acc
}

} // verus!
