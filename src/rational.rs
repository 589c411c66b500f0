//! Numbers of the language: saturating integer arithmetic, and rational
//! numbers for reals, exact whenever the result fits in `i64` and scaled down
//! (or saturated) otherwise, so that arithmetic on numbers never fails.
use vstd::prelude::*;

verus! {

/// A rational number `num / den`; it is well formed when `den > 0`. The
/// operations read any other value through `canon`.
#[derive(Clone, Copy, Debug, PartialEq, Eq)]
pub struct Real {
    pub num: i64,
    pub den: i64,
}

impl Real {
    pub open spec fn wf(self) -> bool {
        self.den > 0
    }

    /// The integer `n` as a real.
    pub fn from_int(n: i32) -> (r: Real)
        ensures
            r == int_real(n),
    {
        Real { num: n as i64, den: 1 }
    }

    /// `num / den` as a real (see `round_ratio`); `None` when `den` is zero.
    pub fn new(num: i64, den: i64) -> (r: Option<Real>)
        ensures
            r == ratio(num as int, den as int),
    {
        if den == 0 {
            None
        } else if den > 0 {
            Some(reduce(num as i128, den as i128))
        } else {
            Some(reduce(-(num as i128), -(den as i128)))
        }
    }

    pub fn numerator(&self) -> (r: i64)
        ensures
            r == self.num,
    {
        self.num
    }

    pub fn denominator(&self) -> (r: i64)
        ensures
            r == self.den,
    {
        self.den
    }
}

pub open spec fn int_real(n: i32) -> Real {
    Real { num: n as i64, den: 1 }
}

pub open spec fn abs(x: int) -> nat {
    if x < 0 {
        (-x) as nat
    } else {
        x as nat
    }
}

/// Greatest common divisor, by Euclid's algorithm.
pub open spec fn gcd(a: nat, b: nat) -> nat
    decreases b,
{
    if b == 0 {
        a
    } else {
        gcd(b, a % b)
    }
}

/// The reduced form of `n / d` for `d > 0`, when it fits in `i64`.
pub open spec fn normalize(n: int, d: int) -> Option<Real> {
    let g = gcd(abs(n), abs(d));
    let m: int = if n < 0 {
        -(abs(n) / g)
    } else {
        (abs(n) / g) as int
    };
    let e = abs(d) / g;
    if i64::MIN <= m <= i64::MAX && e <= i64::MAX {
        Some(Real { num: m as i64, den: e as i64 })
    } else {
        None
    }
}

/// The largest numerator magnitude and denominator of a real.
pub const REAL_MAX: i64 = 0x7fff_ffff_ffff_ffff;

/// A real too large for any fraction: the bound of `n`'s sign, or zero.
pub open spec fn saturated(n: int) -> Real {
    if n > 0 {
        Real { num: REAL_MAX, den: 1 }
    } else if n < 0 {
        Real { num: (-(REAL_MAX as int)) as i64, den: 1 }
    } else {
        Real { num: 0, den: 1 }
    }
}

/// The fraction `a / e` (or its negation), with both divided, rounding toward
/// zero, by the least factor that makes them fit in `i64`; a quotient too
/// large for that saturates.
pub open spec fn scale(a: nat, e: nat, neg: bool) -> Real {
    let m = if a > e {
        a
    } else {
        e
    };
    let s = m / (REAL_MAX as nat) + 1;
    let a2 = a / s;
    let e2 = e / s;
    if e2 == 0 {
        saturated(if neg { -1 } else { 1 })
    } else {
        Real { num: (if neg { -a2 } else { a2 as int }) as i64, den: e2 as i64 }
    }
}

/// `n / d` for `d > 0` as a real: the reduced form when it fits in `i64`,
/// else that form scaled down to fit (as floating point rounds).
pub open spec fn round_ratio(n: int, d: int) -> Real {
    match normalize(n, d) {
        Some(r) => r,
        None => {
            let g = gcd(abs(n), abs(d));
            scale(abs(n) / g, abs(d) / g, n < 0)
        },
    }
}

pub open spec fn ratio(n: int, d: int) -> Option<Real> {
    if d == 0 {
        None
    } else if d > 0 {
        Some(round_ratio(n, d))
    } else {
        Some(round_ratio(-n, -d))
    }
}

/// The well-formed real that `r` stands for: itself when well formed; a
/// negative denominator moves its sign to the numerator; a zero denominator
/// stands for the bound of the numerator's sign, as a division by zero gives.
pub open spec fn canon(r: Real) -> Real {
    if r.den > 0 {
        r
    } else if r.den == 0 {
        saturated(r.num as int)
    } else {
        round_ratio(-r.num, -r.den)
    }
}

pub open spec fn real_add(a: Real, b: Real) -> Real {
    let x = canon(a);
    let y = canon(b);
    round_ratio(x.num * y.den + y.num * x.den, x.den * y.den)
}

pub open spec fn real_sub(a: Real, b: Real) -> Real {
    let x = canon(a);
    let y = canon(b);
    round_ratio(x.num * y.den - y.num * x.den, x.den * y.den)
}

pub open spec fn real_mul(a: Real, b: Real) -> Real {
    let x = canon(a);
    let y = canon(b);
    round_ratio(x.num * y.num, x.den * y.den)
}

/// Real division; a zero divisor gives the bound of the dividend's sign, or
/// zero, as integer division does.
pub open spec fn real_div(a: Real, b: Real) -> Real {
    let x = canon(a);
    let y = canon(b);
    if y.num == 0 {
        saturated(x.num as int)
    } else if y.num > 0 {
        round_ratio(x.num * y.den, x.den * y.num)
    } else {
        round_ratio(-(x.num * y.den), -(x.den * y.num))
    }
}

/// Sign of `a - b` (as -1, 0 or 1).
pub open spec fn real_cmp(a: Real, b: Real) -> int {
    let x = canon(a);
    let y = canon(b);
    let l = x.num * y.den;
    let r = y.num * x.den;
    if l < r {
        -1
    } else if l == r {
        0
    } else {
        1
    }
}

fn gcd_exec(a: u128, b: u128) -> (r: u128)
    ensures
        r == gcd(a as nat, b as nat),
{
    let mut x = a;
    let mut y = b;
    while y != 0
        invariant
            gcd(x as nat, y as nat) == gcd(a as nat, b as nat),
        decreases y,
    {
        let t = x % y;
        x = y;
        y = t;
    }
    x
}

pub proof fn lemma_gcd_pos(a: nat, b: nat)
    requires
        b > 0,
    ensures
        gcd(a, b) > 0,
    decreases b,
{
    if a % b > 0 {
        lemma_gcd_pos(b, a % b);
    } else {
        assert(gcd(b, 0) == b);
    }
}

proof fn lemma_gcd_bound(a: nat, b: nat)
    requires
        b > 0,
    ensures
        gcd(a, b) <= b,
    decreases b,
{
    if a % b > 0 {
        lemma_gcd_bound(b, a % b);
        assert(a % b < b);
    } else {
        assert(gcd(b, 0) == b);
    }
}

/// `a / e` (or its negation) scaled down to fit.
fn scale_exec(a: u128, e: u128, neg: bool) -> (r: Real)
    ensures
        r == scale(a as nat, e as nat, neg),
        r.den > 0,
{
    let m: u128 = if a > e {
        a
    } else {
        e
    };
    let mx: u128 = 0x7fff_ffff_ffff_ffff;
    let s: u128 = m / mx + 1;
    let a2 = a / s;
    let e2 = e / s;
    proof {
        vstd::arithmetic::div_mod::lemma_fundamental_div_mod(m as int, mx as int);
        vstd::arithmetic::div_mod::lemma_fundamental_div_mod(a as int, s as int);
        vstd::arithmetic::div_mod::lemma_fundamental_div_mod(e as int, s as int);
        assert(m < s * mx) by (nonlinear_arith)
            requires
                m == mx * (m / mx) + m % mx,
                m % mx < mx,
                s == m / mx + 1,
        ;
        assert(a2 < mx && e2 < mx) by (nonlinear_arith)
            requires
                a == s * a2 + a % s,
                e == s * e2 + e % s,
                a % s >= 0,
                e % s >= 0,
                a <= m,
                e <= m,
                m < s * mx,
                s > 0,
                a2 >= 0,
                e2 >= 0,
        ;
    }
    if e2 == 0 {
        if neg {
            Real { num: -0x7fff_ffff_ffff_ffff, den: 1 }
        } else {
            Real { num: 0x7fff_ffff_ffff_ffff, den: 1 }
        }
    } else if neg {
        Real { num: (0i128 - a2 as i128) as i64, den: e2 as i64 }
    } else {
        Real { num: a2 as i64, den: e2 as i64 }
    }
}

/// `n / d` as a real, for `d > 0`: reduced, and scaled down when it does not fit.
fn reduce(n: i128, d: i128) -> (r: Real)
    requires
        d > 0,
        n > i128::MIN,
    ensures
        r == round_ratio(n as int, d as int),
        r.den > 0,
{
    let an: u128 = if n < 0 {
        (-n) as u128
    } else {
        n as u128
    };
    let ad: u128 = d as u128;
    let g = gcd_exec(an, ad);
    proof {
        lemma_gcd_pos(an as nat, ad as nat);
        lemma_gcd_bound(an as nat, ad as nat);
        vstd::arithmetic::div_mod::lemma_div_non_zero(ad as int, g as int);
    }
    let q = an / g;
    let e = ad / g;
    if q > 0x8000_0000_0000_0000u128 || e > 0x7fff_ffff_ffff_ffffu128 {
        return scale_exec(q, e, n < 0);
    }
    if n < 0 {
        Real { num: (0i128 - q as i128) as i64, den: e as i64 }
    } else if q <= 0x7fff_ffff_ffff_ffffu128 {
        Real { num: q as i64, den: e as i64 }
    } else {
        scale_exec(q, e, false)
    }
}

fn saturated_exec(n: i64) -> (r: Real)
    ensures
        r == saturated(n as int),
{
    if n > 0 {
        Real { num: 0x7fff_ffff_ffff_ffff, den: 1 }
    } else if n < 0 {
        Real { num: -0x7fff_ffff_ffff_ffff, den: 1 }
    } else {
        Real { num: 0, den: 1 }
    }
}

/// The well-formed real that `r` stands for.
pub fn canon_exec(r: Real) -> (c: Real)
    ensures
        c == canon(r),
        c.den > 0,
{
    if r.den > 0 {
        r
    } else if r.den == 0 {
        saturated_exec(r.num)
    } else {
        reduce(-(r.num as i128), -(r.den as i128))
    }
}

const BOUND: i128 = 0x4000_0000_0000_0000_0000_0000_0000_0000;

/// The exact product of two `i64`, which is strictly within `BOUND` when one
/// factor is positive.
fn wide_mul(a: i64, b: i64) -> (r: i128)
    ensures
        r == a * b,
        -BOUND <= r <= BOUND,
        (a > 0 || b > 0) ==> -BOUND < r < BOUND,
        (a > 0 && b > 0) ==> r > 0,
        (a > 0 && b < 0) ==> r < 0,
{
    proof {
        assert((a > 0 || b > 0) ==> -BOUND < a * b < BOUND) by (nonlinear_arith)
            requires
                -0x8000_0000_0000_0000 <= a <= 0x7fff_ffff_ffff_ffff,
                -0x8000_0000_0000_0000 <= b <= 0x7fff_ffff_ffff_ffff,
                BOUND == 0x4000_0000_0000_0000_0000_0000_0000_0000,
        ;
        assert((a > 0 && b > 0) ==> a * b > 0) by (nonlinear_arith);
        assert((a > 0 && b < 0) ==> a * b < 0) by (nonlinear_arith);
        assert(-0x4000_0000_0000_0000_0000_0000_0000_0000 <= a * b <= 0x4000_0000_0000_0000_0000_0000_0000_0000)
            by (nonlinear_arith)
            requires
                -0x8000_0000_0000_0000 <= a <= 0x7fff_ffff_ffff_ffff,
                -0x8000_0000_0000_0000 <= b <= 0x7fff_ffff_ffff_ffff,
        ;
    }
    (a as i128) * (b as i128)
}

pub fn add_real(a: Real, b: Real) -> (r: Real)
    ensures
        r == real_add(a, b),
{
    let x = canon_exec(a);
    let y = canon_exec(b);
    let n = wide_mul(x.num, y.den) + wide_mul(y.num, x.den);
    reduce(n, wide_mul(x.den, y.den))
}

pub fn sub_real(a: Real, b: Real) -> (r: Real)
    ensures
        r == real_sub(a, b),
{
    let x = canon_exec(a);
    let y = canon_exec(b);
    let n = wide_mul(x.num, y.den) - wide_mul(y.num, x.den);
    reduce(n, wide_mul(x.den, y.den))
}

pub fn mul_real(a: Real, b: Real) -> (r: Real)
    ensures
        r == real_mul(a, b),
{
    let x = canon_exec(a);
    let y = canon_exec(b);
    reduce(wide_mul(x.num, y.num), wide_mul(x.den, y.den))
}

pub fn div_real(a: Real, b: Real) -> (r: Real)
    ensures
        r == real_div(a, b),
{
    let x = canon_exec(a);
    let y = canon_exec(b);
    if y.num == 0 {
        return saturated_exec(x.num);
    }
    let n = wide_mul(x.num, y.den);
    let d = wide_mul(x.den, y.num);
    if y.num > 0 {
        reduce(n, d)
    } else {
        reduce(-n, -d)
    }
}

pub fn cmp_real(a: Real, b: Real) -> (r: i8)
    ensures
        r == real_cmp(a, b),
{
    let x = canon_exec(a);
    let y = canon_exec(b);
    let l = wide_mul(x.num, y.den);
    let r = wide_mul(y.num, x.den);
    if l < r {
        -1
    } else if l == r {
        0
    } else {
        1
    }
}

/// `x` clamped to the range of `i32`.
pub open spec fn saturate(x: int) -> i32 {
    if x > i32::MAX {
        i32::MAX
    } else if x < i32::MIN {
        i32::MIN
    } else {
        x as i32
    }
}

/// Quotient of `a / b` rounded toward zero, for `b != 0`.
pub open spec fn trunc_div(a: int, b: int) -> int {
    let q: int = (abs(a) / abs(b)) as int;
    if (a < 0) != (b < 0) {
        -q
    } else {
        q
    }
}

/// Integer division as the language defines it: the truncated quotient,
/// saturated; a zero divisor gives the bound of the dividend's sign, or zero.
pub open spec fn int_div(a: i32, b: i32) -> i32 {
    if b == 0 {
        if a > 0 {
            i32::MAX
        } else if a < 0 {
            i32::MIN
        } else {
            0
        }
    } else {
        saturate(trunc_div(a as int, b as int))
    }
}

fn saturate_i64(x: i64) -> (r: i32)
    ensures
        r == saturate(x as int),
{
    if x > i32::MAX as i64 {
        i32::MAX
    } else if x < i32::MIN as i64 {
        i32::MIN
    } else {
        x as i32
    }
}

pub fn add_int(a: i32, b: i32) -> (r: i32)
    ensures
        r == saturate(a + b),
{
    saturate_i64(a as i64 + b as i64)
}

pub fn sub_int(a: i32, b: i32) -> (r: i32)
    ensures
        r == saturate(a - b),
{
    saturate_i64(a as i64 - b as i64)
}

pub fn mul_int(a: i32, b: i32) -> (r: i32)
    ensures
        r == saturate(a * b),
{
    proof {
        assert(-0x4000_0000_0000_0000 <= a * b <= 0x4000_0000_0000_0000) by (nonlinear_arith)
            requires
                -0x8000_0000 <= a <= 0x7fff_ffff,
                -0x8000_0000 <= b <= 0x7fff_ffff,
        ;
    }
    saturate_i64((a as i64) * (b as i64))
}

pub fn div_int(a: i32, b: i32) -> (r: i32)
    ensures
        r == int_div(a, b),
{
    if b == 0 {
        if a > 0 {
            i32::MAX
        } else if a < 0 {
            i32::MIN
        } else {
            0
        }
    } else {
        let aa: u64 = if a < 0 {
            (0i64 - a as i64) as u64
        } else {
            a as u64
        };
        let ab: u64 = if b < 0 {
            (0i64 - b as i64) as u64
        } else {
            b as u64
        };
        let q: u64 = aa / ab;
        assert(q <= aa) by (nonlinear_arith)
            requires
                ab >= 1,
                q == aa / ab,
        ;
        if (a < 0) != (b < 0) {
            saturate_i64(0i64 - q as i64)
        } else {
            saturate_i64(q as i64)
        }
    }
}

} // verus!
