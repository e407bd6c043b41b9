//! Number formats by their bits: half, bfloat and single precision, and the conversion of
//! integers and double precision to single precision.
//!
//! A number is held as the bits of its IEEE-754 format. Single and half precision are compared
//! by what their bits are worth: a finite single is a whole number of units of `2^-149`, a
//! finite half one of units of `2^-24`, that is of `2^125` units of a single.

use vstd::arithmetic::power2;
use vstd::prelude::*;

use crate::ensemble::pyrandom;

verus! {

/// The magnitude of a finite half, in units of `2^-24`.
pub open spec fn half_units(h: u16) -> nat {
    let e = ((h / 1024) % 32) as nat;
    let m = (h % 1024) as nat;
    if e == 0 {
        m
    } else {
        (1024 + m) * power2::pow2((e - 1) as nat)
    }
}

/// The magnitude of a finite single, in units of `2^-149`.
pub open spec fn single_units(b: u32) -> nat {
    let e = ((b / 0x80_0000) % 256) as nat;
    let m = (b % 0x80_0000) as nat;
    if e == 0 {
        m
    } else {
        (0x80_0000 + m) * power2::pow2((e - 1) as nat)
    }
}

/// Whether a half is infinite or NaN.
pub open spec fn half_special(h: u16) -> bool {
    (h / 1024) % 32 == 31
}

/// Whether a half is NaN.
pub open spec fn half_nan(h: u16) -> bool {
    half_special(h) && h % 1024 != 0
}

/// Whether a single is infinite or NaN.
pub open spec fn single_special(b: u32) -> bool {
    (b / 0x80_0000) % 256 == 255
}

/// The bits of a half for a single: truncated towards zero, overflow gives infinity, and a NaN
/// gives a quiet NaN.
pub open spec fn half_of(b: u32) -> u16 {
    let sign: u16 = ((b >> 16u32) & 0x8000u32) as u16;
    let e: u32 = (b >> 23u32) & 0xffu32;
    let m: u32 = b & 0x007f_ffffu32;
    if e == 0xffu32 {
        if m != 0u32 {
            sign | 0x7e00u16
        } else {
            sign | 0x7c00u16
        }
    } else if e >= 143u32 {
        sign | 0x7c00u16
    } else if e > 112u32 {
        sign | ((((e - 112u32) as u32) << 10u32) as u16) | ((m >> 13u32) as u16)
    } else if e >= 102u32 {
        sign | ((((m | 0x0080_0000u32) >> ((113u32 - e) as u32)) >> 13u32) as u16)
    } else {
        sign
    }
}

/// How far the mantissa of a subnormal half is from its leading bit.
pub open spec fn half_shift(m: u32) -> u32 {
    if m >= 512u32 {
        1u32
    } else if m >= 256u32 {
        2u32
    } else if m >= 128u32 {
        3u32
    } else if m >= 64u32 {
        4u32
    } else if m >= 32u32 {
        5u32
    } else if m >= 16u32 {
        6u32
    } else if m >= 8u32 {
        7u32
    } else if m >= 4u32 {
        8u32
    } else if m >= 2u32 {
        9u32
    } else {
        10u32
    }
}

/// The bits of the single that equals a half.
pub open spec fn single_of_half(h: u16) -> u32 {
    let sign: u32 = ((h & 0x8000u16) as u32) << 16u32;
    let e: u32 = ((h >> 10u16) & 0x1fu16) as u32;
    let m: u32 = (h & 0x03ffu16) as u32;
    if e == 0u32 {
        if m == 0u32 {
            sign
        } else {
            let s: u32 = half_shift(m);
            sign | (((113u32 - s) as u32) << 23u32) | (((m << s) & 0x03ffu32) << 13u32)
        }
    } else if e == 31u32 {
        sign | 0x7f80_0000u32 | (m << 13u32)
    } else {
        sign | (((e + 112u32) as u32) << 23u32) | (m << 13u32)
    }
}

/// A half survives the way to single precision and back, unless it is NaN; a NaN stays one.
pub proof fn law_half_round_trip(h: u16)
    ensures
        !half_nan(h) ==> half_of(single_of_half(h)) == h,
        half_nan(h) ==> half_nan(half_of(single_of_half(h))),
{
    lemma_half_round_trip(h);
}

proof fn lemma_half_round_trip(h: u16)
    by (bit_vector)
    ensures
        !half_nan(h) ==> half_of(single_of_half(h)) == h,
        half_nan(h) ==> half_nan(half_of(single_of_half(h))),
{
}

/// The bits of a half for a single.
pub fn f32_to_f16_bits(b: u32) -> (r: u16)
    ensures
        r == half_of(b),
{
    let sign: u16 = ((b >> 16u32) & 0x8000u32) as u16;
    let e: u32 = (b >> 23u32) & 0xffu32;
    let m: u32 = b & 0x007f_ffffu32;
    proof {
        assert(e <= 255) by (bit_vector)
            requires
                e == (b >> 23u32) & 0xffu32,
        ;
    }
    if e == 0xff {
        if m != 0 {
            sign | 0x7e00u16
        } else {
            sign | 0x7c00u16
        }
    } else if e >= 143 {
        sign | 0x7c00u16
    } else if e > 112 {
        sign | (((e - 112) << 10u32) as u16) | ((m >> 13u32) as u16)
    } else if e >= 102 {
        sign | ((((m | 0x0080_0000u32) >> (113 - e)) >> 13u32) as u16)
    } else {
        sign
    }
}

/// The bits of the single that equals a half.
pub fn f16_to_f32(h: u16) -> (r: u32)
    ensures
        r == single_of_half(h),
{
    let sign: u32 = ((h & 0x8000u16) as u32) << 16u32;
    let e: u32 = ((h >> 10u16) & 0x1fu16) as u32;
    let m: u32 = (h & 0x03ffu16) as u32;
    proof {
        assert(e <= 31 && m <= 1023) by (bit_vector)
            requires
                e == ((h >> 10u16) & 0x1fu16) as u32,
                m == (h & 0x03ffu16) as u32,
        ;
    }
    if e == 0 {
        if m == 0 {
            return sign;
        }
        let mut n: u32 = m;
        let mut s: u32 = 0;
        assert(m << 0u32 == m) by (bit_vector);
        while n & 0x0400u32 == 0
            invariant
                0 < m <= 1023,
                s < half_shift(m) || n & 0x0400u32 != 0,
                s <= half_shift(m) <= 10,
                n == m << s,
            decreases 10 - s,
        {
            s += 1;
            n = n << 1u32;
            proof {
                let s0 = (s - 1) as u32;
                assert((m << s0) << 1u32 == m << s) by (bit_vector)
                    requires
                        s0 < 10u32,
                        s == s0 + 1,
                        m <= 1023u32,
                ;
                assert(0 < m <= 1023u32 && s == half_shift(m) ==> (m << s) & 0x0400u32 != 0u32) by (bit_vector);
            }
        }
        proof {
            assert(0 < m <= 1023u32 && s < half_shift(m) ==> (m << s) & 0x0400u32 == 0u32) by (bit_vector);
        }
        sign | ((113 - s) << 23u32) | ((n & 0x03ffu32) << 13u32)
    } else if e == 31 {
        sign | 0x7f80_0000u32 | (m << 13u32)
    } else {
        sign | ((e + 112) << 23u32) | (m << 13u32)
    }
}

proof fn lemma_half_fields(b: u32)
    by (bit_vector)
    ensures
        ({
            let e: u32 = (b / 0x80_0000u32) % 256u32;
            let m: u32 = b % 0x80_0000u32;
            let h: u16 = half_of(b);
            &&& 112u32 < e < 143u32 ==> (h / 1024u16) % 32u16 == e - 112u32 && h % 1024u16 == m / 8192u32
            &&& 102u32 <= e <= 112u32 ==> (h % 0x8000u16) as u32 == ((m + 0x80_0000u32) as u32) >> ((126u32 - e) as u32)
                && h % 0x8000u16 <= 1023u16 && (h / 1024u16) % 32u16 == 0u16 && h % 1024u16 == h % 0x8000u16
            &&& e < 102u32 ==> (h / 1024u16) % 32u16 == 0u16 && h % 1024u16 == 0u16
            &&& (h / 0x8000u16) as u32 == b / 0x8000_0000u32
        }),
{
}

/// Going to half precision keeps the sign and truncates towards zero: below the range of
/// halves the magnitude is the whole number of half units in the single, and within it the
/// single lies between the half and the next one up.
pub proof fn law_half_truncates(b: u32)
    requires
        (b / 0x80_0000) % 256 < 143,
    ensures
        ({
            let h = half_of(b);
            let unit = power2::pow2(125);
            let step = power2::pow2(if (h / 1024) % 32 > 1 { ((h / 1024) % 32 - 1) as nat } else { 0 });
            &&& !half_special(h)
            &&& (h / 0x8000) as u32 == b / 0x8000_0000
            &&& half_units(h) * unit <= single_units(b) < (half_units(h) + step) * unit
        }),
{
    lemma_half_fields(b);
    let e = ((b / 0x80_0000) % 256) as nat;
    let m = (b % 0x80_0000) as nat;
    let h = half_of(b);
    let unit = power2::pow2(125);
    let eh = ((h / 1024) % 32) as nat;
    power2::lemma_pow2_pos(125);
    power2::lemma2_to64();
    if e > 112 {
        let a = power2::pow2((eh - 1) as nat);
        power2::lemma_pow2_adds((eh - 1) as nat, 125);
        power2::lemma_pow2_adds(13, (e - 1) as nat);
        let w = power2::pow2((e - 1) as nat);
        assert(eh - 1 + 125 == 13 + (e - 1));
        assert(a * unit == 8192 * w);
        let k = (1024 + m / 8192) as nat;
        assert((k * a) * unit == k * (a * unit)) by (nonlinear_arith);
        assert(((k * a) + a) * unit == (k + 1) * (a * unit)) by (nonlinear_arith);
        assert(k * (8192 * w) == (k * 8192) * w) by (nonlinear_arith);
        assert((k + 1) * (8192 * w) == (k * 8192 + 8192) * w) by (nonlinear_arith);
        assert(w > 0) by {
            power2::lemma_pow2_pos((e - 1) as nat);
        }
        let x = 0x80_0000 + m;
        assert(k * 8192 <= x < k * 8192 + 8192);
        assert((k * 8192) * w <= x * w < (k * 8192 + 8192) * w) by (nonlinear_arith)
            requires
                k * 8192 <= x < k * 8192 + 8192,
                w > 0,
        ;
    } else if e >= 102 {
        let x: u32 = ((m + 0x80_0000) as u32);
        let s: u32 = (126 - e) as u32;
        vstd::bits::lemma_u32_shr_is_div(x, s);
        let d = power2::pow2(s as nat);
        power2::lemma_pow2_pos(s as nat);
        let w = power2::pow2((e - 1) as nat);
        power2::lemma_pow2_pos((e - 1) as nat);
        power2::lemma_pow2_adds(s as nat, (e - 1) as nat);
        assert(d * w == unit);
        let q = (x as nat / d) as nat;
        vstd::arithmetic::div_mod::lemma_fundamental_div_mod(x as int, d as int);
        vstd::arithmetic::div_mod::lemma_mod_bound(x as int, d as int);
        assert(half_units(h) == q);
        assert(q * d <= x < (q + 1) * d) by (nonlinear_arith)
            requires
                x == d * q + (x as int) % (d as int),
                0 <= (x as int) % (d as int) < d,
        ;
        assert((q * d) * w <= x * w < ((q + 1) * d) * w) by (nonlinear_arith)
            requires
                q * d <= x < (q + 1) * d,
                w > 0,
        ;
        assert((q * d) * w == q * (d * w)) by (nonlinear_arith);
        assert(((q + 1) * d) * w == (q + 1) * (d * w)) by (nonlinear_arith);
    } else {
        if e > 0 {
            power2::lemma_pow2_strictly_increases((e - 1) as nat, 101);
            power2::lemma_pow2_adds(24, 101);
            let w = power2::pow2((e - 1) as nat);
            assert((0x80_0000 + m) * w < 0x100_0000 * power2::pow2(101)) by (nonlinear_arith)
                requires
                    m < 0x80_0000,
                    w < power2::pow2(101),
            ;
        } else {
            power2::lemma_pow2_strictly_increases(24, 125);
        }
        assert(0 * unit == 0) by (nonlinear_arith);
        assert(1 * unit == unit) by (nonlinear_arith);
    }
}

proof fn lemma_single_fields(h: u16)
    by (bit_vector)
    ensures
        ({
            let e: u32 = ((h / 1024u16) % 32u16) as u32;
            let m: u32 = (h % 1024u16) as u32;
            let b: u32 = single_of_half(h);
            let s: u32 = half_shift(m);
            &&& 0u32 < e < 31u32 ==> (b / 0x80_0000u32) % 256u32 == e + 112u32 && b % 0x80_0000u32 == m * 8192u32
            &&& e == 0u32 && m == 0u32 ==> (b / 0x80_0000u32) % 256u32 == 0u32 && b % 0x80_0000u32 == 0u32
            &&& e == 0u32 && m > 0u32 ==> (b / 0x80_0000u32) % 256u32 == 113u32 - s && 1u32 <= s <= 10u32 && (b % 0x80_0000u32)
                + 0x80_0000u32 == (m << s) * 8192u32
            &&& b / 0x8000_0000u32 == (h / 0x8000u16) as u32
        }),
{
}

/// Going from half to single precision keeps the value.
pub proof fn law_half_widens_exactly(h: u16)
    requires
        !half_special(h),
    ensures
        !single_special(single_of_half(h)),
        single_of_half(h) / 0x8000_0000 == (h / 0x8000) as u32,
        single_units(single_of_half(h)) == half_units(h) * power2::pow2(125),
{
    lemma_single_fields(h);
    let e = ((h / 1024) % 32) as nat;
    let m = (h % 1024) as nat;
    power2::lemma2_to64();
    if e > 0 {
        let a = power2::pow2((e - 1) as nat);
        let w = power2::pow2((e + 111) as nat);
        power2::lemma_pow2_adds((e - 1) as nat, 125);
        power2::lemma_pow2_adds(13, (e + 111) as nat);
        let k = 1024 + m;
        assert((k * 8192) * w == k * (8192 * w)) by (nonlinear_arith);
        assert((k * a) * power2::pow2(125) == k * (a * power2::pow2(125))) by (nonlinear_arith);
        assert(0x80_0000 + m * 8192 == k * 8192);
    } else if m > 0 {
        let sh: u32 = half_shift(m as u32);
        assert(m as u32 * power2::pow2(sh as nat) <= u32::MAX) by {
            power2::lemma_pow2_strictly_increases(sh as nat, 11);
            assert(m * power2::pow2(sh as nat) <= 1024 * 2048) by (nonlinear_arith)
                requires
                    m <= 1024,
                    power2::pow2(sh as nat) < 2048,
            ;
        }
        vstd::bits::lemma_u32_shl_is_mul(m as u32, sh);
        let p = power2::pow2(sh as nat);
        let w = power2::pow2((112 - sh) as nat);
        power2::lemma_pow2_adds(sh as nat, (112 - sh) as nat);
        power2::lemma_pow2_adds(13, 112);
        assert(((m * p) * 8192) * w == m * (8192 * (p * w))) by (nonlinear_arith);
    } else {
        assert(0 * power2::pow2(125) == 0) by (nonlinear_arith);
    }
}

/// `x / d`, rounded to the nearest whole number; halfway cases go to the even one.
pub open spec fn nearest_even(x: nat, d: nat) -> nat {
    let q = x / d;
    let r = x % d;
    if 2 * r > d || (2 * r == d && q % 2 == 1) {
        q + 1
    } else {
        q
    }
}

/// Rounding is off by no more than half.
pub proof fn law_nearest_even_is_near(x: nat, d: nat)
    requires
        d > 0,
    ensures
        2 * x <= 2 * (nearest_even(x, d) * d) + d,
        2 * (nearest_even(x, d) * d) <= 2 * x + d,
{
    vstd::arithmetic::div_mod::lemma_fundamental_div_mod(x as int, d as int);
    vstd::arithmetic::div_mod::lemma_mod_bound(x as int, d as int);
    let q = x / d;
    assert((q + 1) * d == q * d + d) by (nonlinear_arith);
    assert(d * q == q * d) by (nonlinear_arith);
}

/// The single nearest to a whole number, without its sign: with `n` binary digits, of which 24
/// are kept, its exponent field counts from 127 for one digit. A carry out of the mantissa
/// raises the exponent by itself.
pub open spec fn single_of_nat(x: nat) -> nat {
    let n = pyrandom::bit_len(x);
    if x == 0 {
        0
    } else if n <= 24 {
        ((125 + n) * 0x80_0000 + x * power2::pow2((24 - n) as nat)) as nat
    } else {
        ((125 + n) * 0x80_0000 + nearest_even(x, power2::pow2((n - 24) as nat))) as nat
    }
}

/// The single nearest to a whole number.
pub open spec fn single_of_int(x: int) -> nat {
    if x < 0 {
        0x8000_0000 + single_of_nat((-x) as nat)
    } else {
        single_of_nat(x as nat)
    }
}

/// The single nearest to a double that is not NaN; a NaN keeps its sign and the top of its
/// payload and becomes quiet.
pub open spec fn single_of_double(b: u64) -> nat {
    let sign: nat = if b >= 0x8000_0000_0000_0000 { 0x8000_0000 } else { 0 };
    let e = ((b / 0x10_0000_0000_0000) % 2048) as nat;
    let m = (b % 0x10_0000_0000_0000) as nat;
    let x = 0x10_0000_0000_0000 + m;
    if e == 2047 {
        if m == 0 {
            sign + 0x7f80_0000
        } else {
            sign + 0x7f80_0000 + (if m / 0x2000_0000 >= 0x40_0000 { m / 0x2000_0000 } else { m / 0x2000_0000
                + 0x40_0000 })
        }
    } else if e >= 1151 {
        sign + 0x7f80_0000
    } else if e >= 897 {
        let r = (e - 897) as nat * 0x80_0000 + nearest_even(x, power2::pow2(29));
        sign + (if r < 0x7f80_0000 { r } else { 0x7f80_0000 })
    } else if e >= 872 {
        sign + nearest_even(x, power2::pow2((29 + (897 - e)) as nat))
    } else {
        sign
    }
}

/// `x / 2^k`, rounded to the nearest whole number.
fn round_shift(x: u64, k: u32) -> (r: u64)
    requires
        1 <= k <= 63,
    ensures
        r == nearest_even(x as nat, power2::pow2(k as nat)),
        r <= x / 2 + 1,
{
    let d: u64 = 1u64 << k;
    let half: u64 = 1u64 << (k - 1);
    proof {
        power2::lemma2_to64();
        power2::lemma_pow2_strictly_increases(k as nat, 64);
        power2::lemma_pow2_unfold(k as nat);
        power2::lemma_pow2_pos((k - 1) as nat);
        vstd::bits::lemma_u64_shl_is_mul(1, k as u64);
        vstd::bits::lemma_u64_shl_is_mul(1, (k - 1) as u64);
        assert(d == power2::pow2(k as nat));
        assert(half * 2 == d);
        vstd::arithmetic::div_mod::lemma_fundamental_div_mod(x as int, d as int);
        vstd::arithmetic::div_mod::lemma_mod_bound(x as int, d as int);
        vstd::arithmetic::div_mod::lemma_div_is_ordered_by_denominator(x as int, 2, d as int);
    }
    let q: u64 = x / d;
    let rem: u64 = x % d;
    if rem > half || (rem == half && q % 2 == 1) {
        q + 1
    } else {
        q
    }
}

/// The number of binary digits of `x`.
fn digits(x: u64) -> (r: u32)
    ensures
        r == pyrandom::bit_len(x as nat),
        r <= 64,
        x > 0 ==> r >= 1 && power2::pow2((r - 1) as nat) <= x < power2::pow2(r as nat),
{
    proof {
        if x > 0 {
            pyrandom::lemma_bit_len_bounds(x as nat);
        }
    }
    let mut left: u64 = x;
    let mut n: u32 = 0;
    while left > 0
        invariant
            n + pyrandom::bit_len(left as nat) == pyrandom::bit_len(x as nat),
            pyrandom::bit_len(x as nat) <= 64,
        decreases left,
    {
        left = left / 2;
        n += 1;
    }
    n
}

/// The single nearest to a whole number, without its sign.
pub fn nat_to_f32(x: u64) -> (r: u32)
    ensures
        r == single_of_nat(x as nat),
        r < 0x7f80_0000,
{
    if x == 0 {
        return 0;
    }
    let n: u32 = digits(x);
    proof {
        power2::lemma2_to64();
    }
    let m: u64 = if n <= 24 {
        proof {
            power2::lemma_pow2_adds(n as nat, (24 - n) as nat);
            power2::lemma_pow2_pos((24 - n) as nat);
            let p = power2::pow2((24 - n) as nat);
            assert(x * p < power2::pow2(n as nat) * p) by (nonlinear_arith)
                requires
                    x < power2::pow2(n as nat),
                    p > 0,
            ;
            vstd::bits::lemma_u64_shl_is_mul(x, (24 - n) as u64);
        }
        x << (24 - n)
    } else {
        let q: u64 = round_shift(x, n - 24);
        proof {
            let d = power2::pow2((n - 24) as nat);
            power2::lemma_pow2_adds(24, (n - 24) as nat);
            power2::lemma_pow2_pos((n - 24) as nat);
            vstd::arithmetic::div_mod::lemma_multiply_divide_lt(x as int, d as int, 0x100_0000);
            assert(d * 0x100_0000 == 0x100_0000 * d) by (nonlinear_arith);
        }
        q
    };
    assert(m <= 0x100_0000);
    (125 + n) * 0x80_0000 + m as u32
}

/// The single nearest to a signed number.
pub fn i64_to_f32(x: i64) -> (r: u32)
    ensures
        r == single_of_int(x as int),
{
    if x < 0 {
        let mag: u64 = if x == i64::MIN { 0x8000_0000_0000_0000 } else { (-x) as u64 };
        0x8000_0000 + nat_to_f32(mag)
    } else {
        nat_to_f32(x as u64)
    }
}

/// The single nearest to a double.
pub fn f64_to_f32(b: u64) -> (r: u32)
    ensures
        r == single_of_double(b),
{
    let sign: u32 = if b >= 0x8000_0000_0000_0000 { 0x8000_0000 } else { 0 };
    let e: u64 = (b / 0x10_0000_0000_0000) % 2048;
    let m: u64 = b % 0x10_0000_0000_0000;
    let x: u64 = 0x10_0000_0000_0000 + m;
    proof {
        power2::lemma2_to64();
    }
    if e == 2047 {
        let top: u32 = (m / 0x2000_0000) as u32;
        if m == 0 {
            sign + 0x7f80_0000
        } else if top >= 0x40_0000 {
            sign + 0x7f80_0000 + top
        } else {
            sign + 0x7f80_0000 + top + 0x40_0000
        }
    } else if e >= 1151 {
        sign + 0x7f80_0000
    } else if e >= 897 {
        let q: u64 = round_shift(x, 29);
        assert(q <= 0x100_0000);
        let r: u32 = (e as u32 - 897) * 0x80_0000 + q as u32;
        if r < 0x7f80_0000 {
            sign + r
        } else {
            sign + 0x7f80_0000
        }
    } else if e >= 872 {
        let k: u32 = 29 + (897 - e as u32);
        let q: u64 = round_shift(x, k);
        proof {
            power2::lemma_pow2_adds(30, (k - 30) as nat);
            power2::lemma_pow2_pos((k - 30) as nat);
            let d = power2::pow2(k as nat);
            assert(d >= 0x4000_0000) by (nonlinear_arith)
                requires
                    d == 0x4000_0000 * power2::pow2((k - 30) as nat),
                    power2::pow2((k - 30) as nat) > 0,
            ;
            vstd::arithmetic::div_mod::lemma_div_is_ordered_by_denominator(x as int, 0x4000_0000, d as int);
        }
        sign + q as u32
    } else {
        sign
    }
}

/// Small whole numbers are kept exactly: of a number of at most 24 binary digits nothing is
/// rounded away.
pub proof fn law_small_integers_exact(x: nat)
    requires
        0 < x < 0x100_0000,
    ensures
        single_units(single_of_nat(x) as u32) == x * power2::pow2(149),
{
    pyrandom::lemma_bit_len_bounds(x);
    let n = pyrandom::bit_len(x);
    power2::lemma2_to64();
    if n > 24 {
        if n > 25 {
            power2::lemma_pow2_strictly_increases(24, (n - 1) as nat);
        }
    }
    let p = power2::pow2((24 - n) as nat);
    power2::lemma_pow2_adds((n - 1) as nat, (24 - n) as nat);
    power2::lemma_pow2_adds(n, (24 - n) as nat);
    power2::lemma_pow2_pos((24 - n) as nat);
    assert(power2::pow2((n - 1) as nat) * p <= x * p < power2::pow2(n) * p) by (nonlinear_arith)
        requires
            power2::pow2((n - 1) as nat) <= x < power2::pow2(n),
            p > 0,
    ;
    let b = single_of_nat(x) as u32;
    assert(b == (126 + n) * 0x80_0000 + (x * p - 0x80_0000));
    assert(b / 0x80_0000 == 126 + n && b % 0x80_0000 == x * p - 0x80_0000);
    let w = power2::pow2((125 + n) as nat);
    power2::lemma_pow2_adds((24 - n) as nat, (125 + n) as nat);
    assert((x * p) * w == x * (p * w)) by (nonlinear_arith);
}

/// A single that is too great for a half becomes infinite, with its sign; what is infinite stays so,
/// and what is no number stays none.
pub proof fn law_half_overflows(b: u32)
    requires
        (b / 0x80_0000) % 256 >= 143,
    ensures
        (b / 0x80_0000) % 256 < 255 ==> half_of(b) == (b / 0x8000_0000) * 0x8000 + 0x7c00,
        (b / 0x80_0000) % 256 == 255 && b % 0x80_0000 == 0 ==> half_of(b) == (b / 0x8000_0000) * 0x8000 + 0x7c00,
        (b / 0x80_0000) % 256 == 255 && b % 0x80_0000 != 0 ==> half_nan(half_of(b)) && half_of(b) / 0x8000 == b
            / 0x8000_0000,
{
    assert((b / 0x80_0000) % 256 >= 143 ==> {
        &&& (b / 0x80_0000) % 256 < 255 ==> half_of(b) == (b / 0x8000_0000) * 0x8000 + 0x7c00
        &&& (b / 0x80_0000) % 256 == 255 && b % 0x80_0000 == 0 ==> half_of(b) == (b / 0x8000_0000) * 0x8000 + 0x7c00
        &&& (b / 0x80_0000) % 256 == 255 && b % 0x80_0000 != 0 ==> half_nan(half_of(b)) && half_of(b) / 0x8000 == b
            / 0x8000_0000
    }) by (bit_vector);
}

/// A half that is infinite becomes an infinite single with its sign, and one that is no number becomes
/// one that is none and keeps its digits.
pub proof fn law_half_specials_widen(h: u16)
    requires
        half_special(h),
    ensures
        single_of_half(h) == (h / 0x8000) * 0x8000_0000 + 0x7f80_0000 + (h % 1024) * 0x2000,
{
    assert(half_special(h) ==> single_of_half(h) == (h / 0x8000) * 0x8000_0000 + 0x7f80_0000 + (h % 1024) * 0x2000)
        by (bit_vector);
}

/// A double keeps its sign; one that no single reaches becomes infinite, and one that is less than half
/// of the least single becomes zero.
pub proof fn law_double_extremes(b: u64)
    ensures
        b < 0x8000_0000_0000_0000 ==> single_of_double((b + 0x8000_0000_0000_0000) as u64) == 0x8000_0000
            + single_of_double(b),
        0x7ff0_0000_0000_0000 == b ==> single_of_double(b) == 0x7f80_0000,
        0x7ff0_0000_0000_0000 < b < 0x8000_0000_0000_0000 ==> single_of_double(b) > 0x7f80_0000,
        0x47f0_0000_0000_0000 <= b < 0x7ff0_0000_0000_0000 ==> single_of_double(b) == 0x7f80_0000,
        b < 0x3680_0000_0000_0000 ==> single_of_double(b) == 0,
{
}

/// A double in the range of singles is rounded to the nearest: the 29 digits that a single does not
/// have are dropped, and one is added where they are more than half of the last one that stays, or
/// half of it and that is odd. What stays is the exponent, moved, and the leading digits.
pub proof fn law_doubles_round_to_nearest(b: u64)
    requires
        0x3810_0000_0000_0000 <= b < 0x47ef_ffff_e000_0000,
    ensures
        ({
            let kept = b / 0x2000_0000 - 0x1_c000_0000;
            let dropped = b % 0x2000_0000;
            &&& dropped < 0x1000_0000 ==> single_of_double(b) == kept
            &&& dropped > 0x1000_0000 ==> single_of_double(b) == kept + 1
            &&& dropped == 0x1000_0000 ==> single_of_double(b) == kept + kept % 2
        }),
{
    power2::lemma2_to64();
    let e = ((b / 0x10_0000_0000_0000) % 2048) as nat;
    let m = (b % 0x10_0000_0000_0000) as nat;
    assert(b / 0x10_0000_0000_0000 == e);
    assert(b == e * 0x10_0000_0000_0000 + m);
    let x = 0x10_0000_0000_0000 + m;
    assert(x / 0x2000_0000 == 0x80_0000 + m / 0x2000_0000);
    assert(x % 0x2000_0000 == b % 0x2000_0000);
    assert(b / 0x2000_0000 == e * 0x80_0000 + m / 0x2000_0000);
}

} // verus!
