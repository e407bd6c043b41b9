//! Sums, products and quotients in double precision.
//!
//! The magnitude of a double is held as a whole number of units of `2^-128`. That holds every double
//! that comes up where whole numbers of 64 bits are spaced evenly: none of them but zero is smaller
//! than `2^-64`, and of so large a double the last digit is worth a unit or more.

use vstd::arithmetic::div_mod;
use vstd::arithmetic::mul;
use vstd::arithmetic::power2;
use vstd::prelude::*;

use crate::checkpoint::num;

verus! {

/// The first number that takes more than the 53 binary digits of a double.
pub const BEYOND: u128 = 0x20_0000_0000_0000;

/// One, in units.
pub open spec fn one() -> nat {
    power2::pow2(128)
}

/// `n / d` in units, rounded to 53 binary digits; halfway cases go to the even neighbour.
pub open spec fn rounded(n: nat, d: nat) -> nat
    decreases
            (if n >= d {
                n - d
            } else {
                0
            }) as nat,
{
    if d == 0 || n < BEYOND * d {
        num::nearest_even(n, d)
    } else {
        2 * rounded(n, 2 * d)
    }
}

/// The double of a whole number, without its sign.
pub open spec fn of_whole(x: nat) -> nat {
    rounded(x * one(), 1)
}

/// The quotient of two doubles.
pub open spec fn quotient(x: nat, y: nat) -> nat {
    rounded(x * one(), y)
}

/// The product of two doubles.
pub open spec fn product(x: nat, y: nat) -> nat {
    rounded(x * y, one())
}

/// The sum of two doubles, and zero where it is negative.
pub open spec fn sum(x: int, y: int) -> nat {
    if x + y < 0 {
        0
    } else {
        rounded((x + y) as nat, 1)
    }
}

proof fn lemma_rounded_at(n: nat, d: nat, j: nat)
    requires
        d > 0,
        n < BEYOND * (d * power2::pow2(j)),
        j > 0 ==> n >= BEYOND * (d * power2::pow2((j - 1) as nat)),
    ensures
        rounded(n, d) == num::nearest_even(n, d * power2::pow2(j)) * power2::pow2(j),
    decreases j,
{
    power2::lemma2_to64();
    if j == 0 {
        assert(d * 1 == d && num::nearest_even(n, d) * 1 == num::nearest_even(n, d));
    } else {
        let h = power2::pow2((j - 1) as nat);
        power2::lemma_pow2_pos((j - 1) as nat);
        power2::lemma_pow2_unfold(j);
        assert(n >= BEYOND * d) by (nonlinear_arith)
            requires
                n >= BEYOND * (d * h),
                h >= 1,
        ;
        assert((2 * d) * h == d * (2 * h)) by (nonlinear_arith);
        if j > 1 {
            power2::lemma_pow2_unfold((j - 1) as nat);
            let g = power2::pow2((j - 2) as nat);
            assert((2 * d) * g == d * (2 * g)) by (nonlinear_arith);
        }
        lemma_rounded_at(n, 2 * d, (j - 1) as nat);
        let m = num::nearest_even(n, d * power2::pow2(j));
        assert(2 * (m * h) == m * (2 * h)) by (nonlinear_arith);
    }
}

/// What takes no more than 53 digits is kept.
pub proof fn lemma_exact(q: nat, k: nat, d: nat)
    requires
        q <= BEYOND,
        d > 0,
    ensures
        rounded((q * power2::pow2(k)) * d, d) == q * power2::pow2(k),
    decreases k,
{
    let p = power2::pow2(k);
    let n = (q * p) * d;
    power2::lemma2_to64();
    if n < BEYOND * d {
        lemma_whole(q * p, d);
    } else if k == 0 {
        assert(q * 1 == q);
        assert(q >= BEYOND) by (nonlinear_arith)
            requires
                q * d >= BEYOND * d,
                d > 0,
        ;
        assert(n == (BEYOND / 2) * (2 * d)) by (nonlinear_arith)
            requires
                n == BEYOND * d,
        ;
        assert(n < BEYOND * (2 * d)) by (nonlinear_arith)
            requires
                n == BEYOND * d,
                d > 0,
        ;
        lemma_whole((BEYOND / 2) as nat, 2 * d);
        assert(rounded(n, 2 * d) == BEYOND / 2);
    } else {
        power2::lemma_pow2_unfold(k);
        let h = power2::pow2((k - 1) as nat);
        assert((q * (2 * h)) * d == (q * h) * (2 * d)) by (nonlinear_arith);
        assert(q * (2 * h) == 2 * (q * h)) by (nonlinear_arith);
        lemma_exact(q, (k - 1) as nat, 2 * d);
    }
}

proof fn lemma_whole(q: nat, d: nat)
    requires
        d > 0,
    ensures
        num::nearest_even(q * d, d) == q,
{
    div_mod::lemma_fundamental_div_mod_converse((q * d) as int, d as int, q as int, 0);
}

proof fn lemma_nearest_ordered(n: nat, m: nat, d: nat)
    requires
        n <= m,
        d > 0,
    ensures
        num::nearest_even(n, d) <= num::nearest_even(m, d),
{
    div_mod::lemma_div_is_ordered(n as int, m as int, d as int);
    div_mod::lemma_fundamental_div_mod(n as int, d as int);
    div_mod::lemma_fundamental_div_mod(m as int, d as int);
    let a = n / d;
    let b = m / d;
    if a == b {
        assert(d * a == d * b);
    }
}

/// A greater number is not rounded to a smaller one.
pub proof fn lemma_ordered(n: nat, m: nat, d: nat)
    requires
        n <= m,
        d > 0,
    ensures
        rounded(n, d) <= rounded(m, d),
    decreases
            (if m >= d {
                m - d
            } else {
                0
            }) as nat,
{
    let top = (BEYOND * d) as nat;
    if m < top {
        lemma_nearest_ordered(n, m, d);
    } else if n >= top {
        lemma_ordered(n, m, 2 * d);
    } else {
        lemma_nearest_ordered(n, top, d);
        lemma_whole(BEYOND as nat, d);
        lemma_ordered(top, m, 2 * d);
        assert(top == (BEYOND / 2) * (2 * d)) by (nonlinear_arith)
            requires
                top == BEYOND * d,
        ;
        assert(top < BEYOND * (2 * d)) by (nonlinear_arith)
            requires
                top == BEYOND * d,
                d > 0,
        ;
        lemma_whole((BEYOND / 2) as nat, 2 * d);
    }
}

/// Rounding adds no more than one part in `2^53`.
pub proof fn lemma_close(n: nat, d: nat)
    requires
        d > 0,
        2 * n >= BEYOND * d,
    ensures
        BEYOND * (rounded(n, d) * d) <= (BEYOND + 1) * n,
    decreases
            (if n >= d {
                n - d
            } else {
                0
            }) as nat,
{
    if n < BEYOND * d {
        num::law_nearest_even_is_near(n, d);
        let v = num::nearest_even(n, d) * d;
        assert(BEYOND * v <= (BEYOND + 1) * n) by (nonlinear_arith)
            requires
                2 * v <= 2 * n + d,
                2 * n >= BEYOND * d,
        ;
    } else {
        assert(2 * n >= BEYOND * (2 * d)) by (nonlinear_arith)
            requires
                n >= BEYOND * d,
        ;
        lemma_close(n, 2 * d);
        let v = rounded(n, 2 * d);
        assert((2 * v) * d == v * (2 * d)) by (nonlinear_arith);
    }
}

/// Rounding looks at no more of a quotient than its first digits and whether anything follows.
proof fn lemma_first_digits(n: nat, b: nat, half: nat)
    requires
        b > 0,
        half > 0,
    ensures
        ({
            let h = 2 * half;
            let q = n / b;
            let top = q / h;
            let low = q % h;
            num::nearest_even(n, b * h) == if low > half || (low == half && (n % b > 0 || top % 2 == 1)) {
                top + 1
            } else {
                top
            }
        }),
{
    let h = 2 * half;
    let q = n / b;
    let r = n % b;
    let top = q / h;
    let low = q % h;
    div_mod::lemma_fundamental_div_mod(n as int, b as int);
    div_mod::lemma_fundamental_div_mod(q as int, h as int);
    div_mod::lemma_mod_bound(n as int, b as int);
    div_mod::lemma_mod_bound(q as int, h as int);
    let rest = low * b + r;
    assert(n == top * (b * h) + rest) by (nonlinear_arith)
        requires
            n == b * q + r,
            q == h * top + low,
            rest == low * b + r,
    ;
    assert(0 <= rest < b * h) by (nonlinear_arith)
        requires
            rest == low * b + r,
            0 <= r < b,
            0 <= low <= h - 1,
    ;
    div_mod::lemma_fundamental_div_mod_converse(n as int, (b * h) as int, top as int, rest as int);
    if low > half {
        assert(2 * rest > b * h) by (nonlinear_arith)
            requires
                rest == low * b + r,
                r >= 0,
                b > 0,
                low >= half + 1,
                h == 2 * half,
        ;
    } else if low == half {
        assert(2 * rest == b * h + 2 * r) by (nonlinear_arith)
            requires
                rest == low * b + r,
                low == half,
                h == 2 * half,
        ;
    } else {
        assert(2 * rest < b * h) by (nonlinear_arith)
            requires
                rest == low * b + r,
                r < b,
                b > 0,
                low <= half - 1,
                h == 2 * half,
        ;
    }
}

/// `2^k`.
fn power(k: u32) -> (r: u128)
    requires
        k < 128,
    ensures
        r == power2::pow2(k as nat),
        r >= 1,
{
    let mut p: u128 = 1;
    let mut i: u32 = 0;
    proof {
        power2::lemma2_to64();
    }
    while i < k
        invariant
            i <= k < 128,
            p == power2::pow2(i as nat),
            p >= 1,
        decreases k - i,
    {
        proof {
            power2::lemma_pow2_unfold((i + 1) as nat);
            power2::lemma_pow2_adds(64, 64);
            power2::lemma_pow2_unfold(128);
            power2::lemma2_to64();
            if i + 1 < 127 {
                power2::lemma_pow2_strictly_increases((i + 1) as nat, 127);
            }
        }
        p = 2 * p;
        i += 1;
    }
    p
}

/// The magnitude of a double: `mant * 2^exp` units.
#[derive(Debug, Clone, Copy)]
pub struct Double {
    pub mant: u64,
    pub exp: u32,
}

impl Double {
    /// The magnitude in units.
    pub open spec fn units(self) -> nat {
        self.mant as nat * power2::pow2(self.exp as nat)
    }

    /// It has no more than 53 digits, or is the first number beyond them.
    pub open spec fn wf(self) -> bool {
        self.mant <= BEYOND && self.exp <= 1000
    }

    /// Whether it is a whole number.
    pub open spec fn whole(self) -> bool {
        128 <= self.exp <= 140
    }

    /// Rounds `n / d`, of which `q` are the digits from `2^exp` units on, and `more` says whether
    /// anything follows them.
    fn round(q: u128, more: bool, exp: u32, Ghost(n): Ghost<nat>, Ghost(d): Ghost<nat>) -> (r: Self)
        requires
            d > 0,
            exp <= 800,
            q == n / (d * power2::pow2(exp as nat)),
            more == (n % (d * power2::pow2(exp as nat)) > 0),
            more ==> q >= BEYOND,
        ensures
            r.wf(),
            r.units() == rounded(n, d),
            exp <= r.exp <= exp + 75,
            q < BEYOND * 2048 ==> r.exp <= exp + 12,
    {
        let ghost b = d * power2::pow2(exp as nat);
        proof {
            power2::lemma_pow2_pos(exp as nat);
            assert(b > 0) by (nonlinear_arith)
                requires
                    b == d * power2::pow2(exp as nat),
                    d > 0,
                    power2::pow2(exp as nat) > 0,
            ;
            div_mod::lemma_fundamental_div_mod(n as int, b as int);
        }
        if q < BEYOND {
            proof {
                let p = power2::pow2(exp as nat);
                assert(n == (q * p) * d) by (nonlinear_arith)
                    requires
                        n == b * q,
                        b == d * p,
                ;
                lemma_exact(q as nat, exp as nat, d);
            }
            return Double { mant: q as u64, exp };
        }
        let mut half: u128 = 1;
        let mut k: u32 = 1;
        proof {
            power2::lemma2_to64();
        }
        while q / (2 * half) >= BEYOND
            invariant
                1 <= k <= 75,
                half == power2::pow2((k - 1) as nat),
                1 <= half <= 0x400_0000_0000_0000_0000,
                q / half >= BEYOND,
                q < BEYOND * 2048 ==> k <= 12,
            decreases 75 - k,
        {
            proof {
                let g = 2 * half;
                div_mod::lemma_fundamental_div_mod(q as int, g as int);
                assert(g < 0x800_0000_0000_0000_0000) by (nonlinear_arith)
                    requires
                        q == g * (q / g as u128) + q % (g as u128),
                        q / (g as u128) >= 0x20_0000_0000_0000,
                        q % (g as u128) >= 0,
                        q <= 0xffff_ffff_ffff_ffff_ffff_ffff_ffff_ffff,
                ;
                power2::lemma_pow2_unfold(k as nat);
                lemma_pow2_small(k);
                if q < BEYOND * 2048 {
                    assert(g < 2048) by (nonlinear_arith)
                        requires
                            q == g * (q / g as u128) + q % (g as u128),
                            q / (g as u128) >= 0x20_0000_0000_0000,
                            q % (g as u128) >= 0,
                            q < 0x20_0000_0000_0000 * 2048,
                    ;
                    lemma_pow2_tiny(k);
                }
            }
            half = 2 * half;
            k += 1;
        }
        let h: u128 = 2 * half;
        let top: u128 = q / h;
        let low: u128 = q % h;
        proof {
            power2::lemma_pow2_unfold(k as nat);
            power2::lemma_pow2_adds(exp as nat, k as nat);
            power2::lemma_pow2_adds(exp as nat, (k - 1) as nat);
            let j = (exp + k) as nat;
            let p = power2::pow2(exp as nat);
            assert(b * (h as nat) == d * power2::pow2(j)) by (nonlinear_arith)
                requires
                    b == d * p,
                    power2::pow2(j) == p * (h as nat),
            ;
            assert(b * (half as nat) == d * power2::pow2((j - 1) as nat)) by (nonlinear_arith)
                requires
                    b == d * p,
                    power2::pow2((j - 1) as nat) == p * (half as nat),
            ;
            div_mod::lemma_fundamental_div_mod(q as int, h as int);
            div_mod::lemma_fundamental_div_mod(q as int, half as int);
            div_mod::lemma_mod_bound(q as int, h as int);
            div_mod::lemma_mod_bound(n as int, b as int);
            let bh = d * power2::pow2(j);
            assert(q <= h * (BEYOND - 1) + (h - 1)) by (nonlinear_arith)
                requires
                    q == h * top + low,
                    low <= h - 1,
                    top <= BEYOND - 1,
                    h >= 1,
            ;
            assert(q >= half * BEYOND) by (nonlinear_arith)
                requires
                    q == half * (q / half) + q % half,
                    q / half >= BEYOND,
                    q % half >= 0,
                    half >= 1,
            ;
            assert(n < BEYOND * bh) by (nonlinear_arith)
                requires
                    n == b * q + n % b,
                    n % b < b,
                    q <= h * (BEYOND - 1) + (h - 1),
                    bh == b * (h as nat),
            ;
            assert(n >= BEYOND * (b * (half as nat))) by (nonlinear_arith)
                requires
                    n >= b * q,
                    q >= half * BEYOND,
            ;
            lemma_rounded_at(n, d, j);
            lemma_first_digits(n, b, half as nat);
        }
        let up: bool = low > half || (low == half && (more || top % 2 == 1));
        Double { mant: if up { top as u64 + 1 } else { top as u64 }, exp: exp + k }
    }

    /// The double of a whole number.
    pub fn of(x: u64) -> (r: Self)
        ensures
            r.wf(),
            r.whole(),
            r.units() == of_whole(x as nat),
    {
        proof {
            let n = x as nat * one();
            power2::lemma_pow2_pos(128);
            div_mod::lemma_fundamental_div_mod_converse(n as int, one() as int, x as int, 0);
            assert(1 * one() == one());
        }
        Self::round(x as u128, false, 128, Ghost(x as nat * one()), Ghost(1))
    }

    /// The same double with as many digits as there can be.
    fn widened(self) -> (r: Self)
        requires
            self.wf(),
            self.whole(),
            self.units() > 0,
        ensures
            r.units() == self.units(),
            BEYOND <= 2 * r.mant <= 2 * BEYOND,
            76 <= r.exp <= 140,
    {
        let mut m: u64 = self.mant;
        let mut e: u32 = self.exp;
        proof {
            if self.mant == 0 {
                assert(0 * power2::pow2(self.exp as nat) == 0);
            }
            power2::lemma2_to64();
            assert(m * 1 == m);
        }
        let ghost mut k: nat = 0;
        while m < 0x10_0000_0000_0000
            invariant
                0 < m <= BEYOND,
                m as nat * power2::pow2(e as nat) == self.units(),
                k + e == self.exp,
                128 <= self.exp <= 140,
                k <= 52,
                m >= power2::pow2(k),
            decreases 52 - k,
        {
            proof {
                power2::lemma2_to64();
                power2::lemma_pow2_adds(32, 20);
                power2::lemma_pow2_unfold(e as nat);
                power2::lemma_pow2_unfold(k + 1);
                let p = power2::pow2((e - 1) as nat);
                assert((2 * m) * p == m * (2 * p)) by (nonlinear_arith);
                k = k + 1;
            }
            m = 2 * m;
            e = e - 1;
        }
        Double { mant: m, exp: e }
    }

    /// The quotient of two whole numbers that are not zero.
    pub fn over(self, other: Self) -> (r: Self)
        requires
            self.wf(),
            self.whole(),
            other.wf(),
            other.whole(),
            self.units() > 0,
            other.units() > 0,
        ensures
            r.wf(),
            r.exp <= 210,
            r.units() == quotient(self.units(), other.units()),
    {
        let x: Self = self.widened();
        let y: Self = other.widened();
        let j: u32 = x.exp + 64 - y.exp;
        let wide: u128 = x.mant as u128 * 0x1_0000_0000_0000_0000;
        let q: u128 = wide / (y.mant as u128);
        let rest: u128 = wide % (y.mant as u128);
        proof {
            let n = self.units() * one();
            let d = other.units();
            let b = d * power2::pow2(j as nat);
            let c = power2::pow2((x.exp + 64) as nat);
            power2::lemma2_to64();
            power2::lemma_pow2_pos((x.exp + 64) as nat);
            power2::lemma_pow2_adds(y.exp as nat, j as nat);
            power2::lemma_pow2_adds(x.exp as nat, 128);
            power2::lemma_pow2_adds((x.exp + 64) as nat, 64);
            let px = power2::pow2(x.exp as nat);
            let py = power2::pow2(y.exp as nat);
            assert(b == y.mant * c) by (nonlinear_arith)
                requires
                    b == (y.mant * py) * power2::pow2(j as nat),
                    c == py * power2::pow2(j as nat),
            ;
            assert(n == wide * c) by (nonlinear_arith)
                requires
                    n == (x.mant * px) * one(),
                    px * one() == c * 0x1_0000_0000_0000_0000,
                    wide == x.mant * 0x1_0000_0000_0000_0000,
            ;
            lemma_common_factor(wide as nat, y.mant as nat, c);
            div_mod::lemma_fundamental_div_mod(wide as int, y.mant as int);
            div_mod::lemma_mod_bound(wide as int, y.mant as int);
            assert(q >= BEYOND) by (nonlinear_arith)
                requires
                    wide == y.mant * q + rest,
                    rest < y.mant,
                    y.mant <= BEYOND,
                    wide >= 0x10_0000_0000_0000 * 0x1_0000_0000_0000_0000,
            ;
        }
        Self::round(q, rest > 0, j, Ghost(self.units() * one()), Ghost(other.units()))
    }

    /// The product of a whole number and a double.
    pub fn times(self, other: Self) -> (r: Self)
        requires
            self.wf(),
            self.whole(),
            other.wf(),
            other.exp <= 210,
        ensures
            r.wf(),
            r.exp <= 300,
            r.units() == product(self.units(), other.units()),
    {
        let exp: u32 = self.exp - 128 + other.exp;
        proof {
            let n = self.units() * other.units();
            let q = self.mant as nat * other.mant as nat;
            let c = power2::pow2(exp as nat);
            assert(q <= BEYOND * BEYOND) by (nonlinear_arith)
                requires
                    q == self.mant * other.mant,
                    self.mant <= BEYOND,
                    other.mant <= BEYOND,
            ;
            power2::lemma_pow2_pos(exp as nat);
            power2::lemma_pow2_pos(128);
            power2::lemma_pow2_adds(128, exp as nat);
            power2::lemma_pow2_adds(self.exp as nat, other.exp as nat);
            let b = one() * c;
            assert(b > 0) by (nonlinear_arith)
                requires
                    b == one() * c,
                    one() > 0,
                    c > 0,
            ;
            assert(n == q * b) by (nonlinear_arith)
                requires
                    n == (self.mant * power2::pow2(self.exp as nat)) * (other.mant * power2::pow2(other.exp as nat)),
                    q == self.mant * other.mant,
                    b == power2::pow2(self.exp as nat) * power2::pow2(other.exp as nat),
            ;
            div_mod::lemma_fundamental_div_mod_converse(n as int, b as int, q as int, 0);
        }
        Self::round(
            self.mant as u128 * other.mant as u128,
            false,
            exp,
            Ghost(self.units() * other.units()),
            Ghost(one()),
        )
    }

    /// Brings a double and one of no greater exponent to one exponent: the first is `x` times its
    /// power of two, and the second `y` times it and, if `more`, something less than it.
    fn aligned(hi: Self, lo: Self) -> (r: (u128, u128, u32, bool))
        requires
            hi.wf(),
            lo.wf(),
            lo.exp <= hi.exp <= 300,
            hi.mant > 0,
        ensures
            r.2 <= hi.exp,
            hi.units() == r.0 * power2::pow2(r.2 as nat),
            r.1 == lo.units() / power2::pow2(r.2 as nat),
            r.3 == (lo.units() % power2::pow2(r.2 as nat) > 0),
            r.0 <= 0x1000_0000_0000_0000_0000_0000_0000_0000,
            r.1 <= BEYOND,
            r.3 ==> r.0 >= 0x40_0000_0000_0000_0000,
            r.3 ==> r.2 > lo.exp,
    {
        let diff: u32 = hi.exp - lo.exp;
        proof {
            power2::lemma2_to64();
            power2::lemma_pow2_adds(64, 6);
        }
        if diff <= 70 {
            let p: u128 = power(diff);
            proof {
                let c = power2::pow2(lo.exp as nat);
                power2::lemma_pow2_pos(lo.exp as nat);
                if diff < 70 {
                    power2::lemma_pow2_strictly_increases(diff as nat, 70);
                }
                power2::lemma_pow2_adds(diff as nat, lo.exp as nat);
                assert(hi.mant * p <= BEYOND * 0x40_0000_0000_0000_0000) by (nonlinear_arith)
                    requires
                        hi.mant <= BEYOND,
                        p <= 0x40_0000_0000_0000_0000,
                ;
                assert(hi.mant * (p * c) == (hi.mant * p) * c) by (nonlinear_arith);
                div_mod::lemma_fundamental_div_mod_converse(lo.units() as int, c as int, lo.mant as int, 0);
            }
            (hi.mant as u128 * p, lo.mant as u128, lo.exp, false)
        } else {
            let cut: u32 = diff - 70;
            let exp: u32 = hi.exp - 70;
            proof {
                power2::lemma_pow2_adds(70, exp as nat);
                power2::lemma_pow2_adds(cut as nat, lo.exp as nat);
                let e = power2::pow2(exp as nat);
                assert(hi.mant * (0x40_0000_0000_0000_0000 * e) == (hi.mant * 0x40_0000_0000_0000_0000) * e)
                    by (nonlinear_arith);
                assert(0x40_0000_0000_0000_0000 <= hi.mant * 0x40_0000_0000_0000_0000 <= BEYOND * 0x40_0000_0000_0000_0000)
                    by (nonlinear_arith)
                    requires
                        1 <= hi.mant <= BEYOND,
                ;
                power2::lemma_pow2_pos(cut as nat);
                power2::lemma_pow2_pos(lo.exp as nat);
                lemma_common_factor(lo.mant as nat, power2::pow2(cut as nat), power2::pow2(lo.exp as nat));
            }
            let x: u128 = hi.mant as u128 * 0x40_0000_0000_0000_0000;
            if cut < 64 {
                let p: u128 = power(cut);
                proof {
                    div_mod::lemma_div_nonincreasing(lo.mant as int, p as int);
                }
                (x, lo.mant as u128 / p, exp, lo.mant as u128 % p > 0)
            } else {
                proof {
                    if cut > 64 {
                        power2::lemma_pow2_strictly_increases(64, cut as nat);
                    }
                    let c = power2::pow2(cut as nat);
                    div_mod::lemma_basic_div(lo.mant as int, c as int);
                    div_mod::lemma_small_mod(lo.mant as nat, c);
                }
                (x, 0, exp, lo.mant > 0)
            }
        }
    }

    proof fn lemma_kept(self)
        requires
            self.wf(),
        ensures
            rounded(self.units(), 1) == self.units(),
    {
        lemma_exact(self.mant as nat, self.exp as nat, 1);
        assert(self.units() * 1 == self.units());
    }

    /// The sum of two doubles.
    pub fn plus(self, other: Self) -> (r: Self)
        requires
            self.wf(),
            other.wf(),
            self.exp <= 300,
            other.exp <= 300,
        ensures
            r.wf(),
            r.units() == sum(self.units() as int, other.units() as int),
    {
        let (hi, lo): (Self, Self) = if self.exp >= other.exp { (self, other) } else { (other, self) };
        if hi.mant == 0 {
            proof {
                assert(0 * power2::pow2(hi.exp as nat) == 0);
                lo.lemma_kept();
            }
            return lo;
        }
        let (x, y, exp, more): (u128, u128, u32, bool) = Self::aligned(hi, lo);
        let ghost n = (hi.units() + lo.units()) as nat;
        proof {
            let e = power2::pow2(exp as nat);
            power2::lemma_pow2_pos(exp as nat);
            div_mod::lemma_fundamental_div_mod(lo.units() as int, e as int);
            div_mod::lemma_mod_bound(lo.units() as int, e as int);
            let r = lo.units() % e;
            assert(n == (x + y) * e + r) by (nonlinear_arith)
                requires
                    n == x * e + (e * y + r),
            ;
            div_mod::lemma_fundamental_div_mod_converse(n as int, e as int, x + y, r as int);
            assert(1 * e == e);
        }
        Self::round(x + y, more, exp, Ghost(n), Ghost(1))
    }

    /// The difference of two doubles, and zero where it is negative.
    pub fn minus(self, other: Self) -> (r: Self)
        requires
            self.wf(),
            other.wf(),
            self.exp <= 300,
            other.exp <= 300,
        ensures
            r.wf(),
            r.units() == sum(self.units() as int, -other.units()),
    {
        proof {
            power2::lemma_pow2_pos(0);
            lemma_exact(0, 0, 1);
            assert(0 * power2::pow2(0) == 0);
            assert(0 * power2::pow2(other.exp as nat) == 0);
            assert(0 * power2::pow2(self.exp as nat) == 0);
            self.lemma_kept();
        }
        let zero: Self = Double { mant: 0, exp: 0 };
        if self.mant == 0 {
            return zero;
        }
        if other.mant == 0 {
            return self;
        }
        if self.exp >= other.exp {
            let (x, y, exp, more): (u128, u128, u32, bool) = Self::aligned(self, other);
            proof {
                power2::lemma_pow2_pos(exp as nat);
                lemma_apart(self.units(), other.units(), x as nat, y as nat, power2::pow2(exp as nat));
                assert(1 * power2::pow2(exp as nat) == power2::pow2(exp as nat));
            }
            if x < y {
                return zero;
            }
            let ghost n = (self.units() - other.units()) as nat;
            let q: u128 = if more { x - y - 1 } else { x - y };
            Self::round(q, more, exp, Ghost(n), Ghost(1))
        } else {
            let (x, y, exp, more): (u128, u128, u32, bool) = Self::aligned(other, self);
            proof {
                power2::lemma_pow2_pos(exp as nat);
                lemma_behind(self.units(), other.units(), x as nat, y as nat, power2::pow2(exp as nat));
                assert(1 * power2::pow2(exp as nat) == power2::pow2(exp as nat));
            }
            if more || y < x {
                return zero;
            }
            let ghost n = (self.units() - other.units()) as nat;
            Self::round(y - x, false, exp, Ghost(n), Ghost(1))
        }
    }

    /// The whole part, and the greatest number there is where it is greater.
    pub fn floor(self) -> (r: usize)
        requires
            self.wf(),
        ensures
            r == (if self.units() / one() < usize::MAX {
                self.units() / one()
            } else {
                usize::MAX as nat
            }),
    {
        proof {
            power2::lemma2_to64();
            power2::lemma_pow2_pos(128);
        }
        let v: u128 = if self.exp >= 128 {
            let up: u32 = self.exp - 128;
            let ghost w = self.mant as nat * power2::pow2(up as nat);
            proof {
                power2::lemma_pow2_adds(up as nat, 128);
                power2::lemma_pow2_pos(up as nat);
                assert(self.mant * (power2::pow2(up as nat) * one()) == w * one()) by (nonlinear_arith)
                    requires
                        w == self.mant * power2::pow2(up as nat),
                ;
                div_mod::lemma_fundamental_div_mod_converse(self.units() as int, one() as int, w as int, 0);
            }
            if self.mant == 0 {
                assert(0 * power2::pow2(up as nat) == 0);
                0
            } else if up >= 64 {
                proof {
                    if up > 64 {
                        power2::lemma_pow2_strictly_increases(64, up as nat);
                    }
                    assert(w >= power2::pow2(up as nat)) by (nonlinear_arith)
                        requires
                            w == self.mant * power2::pow2(up as nat),
                            self.mant >= 1,
                    ;
                }
                return usize::MAX;
            } else {
                let p: u128 = power(up);
                proof {
                    power2::lemma_pow2_strictly_increases(up as nat, 64);
                    assert(self.mant * p <= BEYOND * 0x1_0000_0000_0000_0000) by (nonlinear_arith)
                        requires
                            self.mant <= BEYOND,
                            p <= 0x1_0000_0000_0000_0000,
                    ;
                }
                self.mant as u128 * p
            }
        } else {
            let down: u32 = 128 - self.exp;
            proof {
                power2::lemma_pow2_adds(down as nat, self.exp as nat);
                power2::lemma_pow2_pos(down as nat);
                power2::lemma_pow2_pos(self.exp as nat);
                lemma_common_factor(self.mant as nat, power2::pow2(down as nat), power2::pow2(self.exp as nat));
            }
            if down < 128 {
                self.mant as u128 / power(down)
            } else {
                proof {
                    power2::lemma_pow2_strictly_increases(64, 128);
                    div_mod::lemma_basic_div(self.mant as int, one() as int);
                }
                0
            }
        };
        if v < usize::MAX as u128 {
            v as usize
        } else {
            usize::MAX
        }
    }
}

/// A common factor does not change a quotient, nor whether there is a rest.
proof fn lemma_common_factor(n: nat, d: nat, c: nat)
    requires
        d > 0,
        c > 0,
    ensures
        (n * c) / (d * c) == n / d,
        ((n * c) % (d * c) > 0) == (n % d > 0),
{
    let q = n / d;
    let r = n % d;
    div_mod::lemma_fundamental_div_mod(n as int, d as int);
    div_mod::lemma_mod_bound(n as int, d as int);
    assert(n * c == q * (d * c) + r * c) by (nonlinear_arith)
        requires
            n == d * q + r,
    ;
    assert(0 <= r * c < d * c) by (nonlinear_arith)
        requires
            0 <= r < d,
            c > 0,
    ;
    assert((r * c > 0) == (r > 0)) by (nonlinear_arith)
        requires
            0 <= r,
            c > 0,
    ;
    div_mod::lemma_fundamental_div_mod_converse((n * c) as int, (d * c) as int, q as int, (r * c) as int);
}

/// What is left of `x` powers of two once a smaller number is taken away.
proof fn lemma_apart(a: nat, b: nat, x: nat, y: nat, e: nat)
    requires
        e > 0,
        a == x * e,
        y == b / e,
    ensures
        x < y ==> a < b,
        x >= y && b % e == 0 ==> a >= b && (a - b) as nat / e == x - y && (a - b) as nat % e == 0,
        x > y && b % e > 0 ==> a >= b && (a - b) as nat / e == x - y - 1 && (a - b) as nat % e > 0,
        x == y && b % e > 0 ==> a < b,
{
    let r = b % e;
    div_mod::lemma_fundamental_div_mod(b as int, e as int);
    div_mod::lemma_mod_bound(b as int, e as int);
    if x < y {
        assert(a < b) by (nonlinear_arith)
            requires
                a == x * e,
                b == e * y + r,
                r >= 0,
                x + 1 <= y,
                e > 0,
        ;
    } else if r == 0 {
        assert(a - b == (x - y) * e) by (nonlinear_arith)
            requires
                a == x * e,
                b == e * y,
        ;
        assert((x - y) * e >= 0) by (nonlinear_arith)
            requires
                x >= y,
                e > 0,
        ;
        div_mod::lemma_fundamental_div_mod_converse(a - b, e as int, x - y, 0);
    } else if x > y {
        assert(a - b == (x - y - 1) * e + (e - r)) by (nonlinear_arith)
            requires
                a == x * e,
                b == e * y + r,
        ;
        assert((x - y - 1) * e >= 0) by (nonlinear_arith)
            requires
                x >= y + 1,
                e > 0,
        ;
        div_mod::lemma_fundamental_div_mod_converse(a - b, e as int, x - y - 1, e - r);
    } else {
        assert(e * y == x * e) by (nonlinear_arith)
            requires
                x == y,
        ;
    }
}

/// What is left of a number once `x` powers of two are taken away.
proof fn lemma_behind(a: nat, b: nat, x: nat, y: nat, e: nat)
    requires
        e > 0,
        b == x * e,
        y == a / e,
    ensures
        y < x ==> a < b,
        y >= x && a % e == 0 ==> a >= b && (a - b) as nat / e == y - x && (a - b) as nat % e == 0,
{
    let r = a % e;
    div_mod::lemma_fundamental_div_mod(a as int, e as int);
    div_mod::lemma_mod_bound(a as int, e as int);
    if y < x {
        assert(a < b) by (nonlinear_arith)
            requires
                b == x * e,
                a == e * y + r,
                r < e,
                y + 1 <= x,
                e > 0,
        ;
    } else if r == 0 {
        assert(a - b == (y - x) * e) by (nonlinear_arith)
            requires
                b == x * e,
                a == e * y,
        ;
        assert((y - x) * e >= 0) by (nonlinear_arith)
            requires
                y >= x,
                e > 0,
        ;
        div_mod::lemma_fundamental_div_mod_converse(a - b, e as int, y - x, 0);
    }
}

proof fn lemma_pow2_small(k: u32)
    requires
        power2::pow2(k as nat) < 0x800_0000_0000_0000_0000,
    ensures
        k < 75,
        power2::pow2(k as nat) <= 0x400_0000_0000_0000_0000,
{
    power2::lemma2_to64();
    power2::lemma_pow2_adds(64, 10);
    if k < 74 {
        power2::lemma_pow2_strictly_increases(k as nat, 74);
    }
    if k >= 75 {
        power2::lemma_pow2_adds(64, 11);
        if k > 75 {
            power2::lemma_pow2_strictly_increases(75, k as nat);
        }
    }
}

proof fn lemma_pow2_tiny(k: u32)
    requires
        power2::pow2(k as nat) < 2048,
    ensures
        k < 11,
{
    if k >= 11 {
        power2::lemma2_to64();
        if k > 11 {
            power2::lemma_pow2_strictly_increases(11, k as nat);
        }
    }
}

} // verus!
