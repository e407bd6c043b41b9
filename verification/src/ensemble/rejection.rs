//! Why rejection sampling over an MT19937 stream always ends.
//!
//! Over the field of two elements the generator is a linear recurrence. Write `S` for the shift
//! of a bit sequence, `D = S^624 + S^397`, and `a_j` for the bits of the feedback constant. With
//! `P_0 = 1` and `P_(j+1) = D P_j + a_j S^(j+1)`, bit `j` of the raw words, shifted by `j`, is
//! `P_j` applied to their lowest bits, and `D P_31 + S^31` annihilates the latter. Each output
//! bit is a sum of raw bits, so the same operator annihilates the sequence of top output bits.
//! But it sends the sequence of all ones to itself, because `D` annihilates constants: the top
//! output bit cannot stay one forever. Squaring the operator gives the same for every second
//! word.

use vstd::prelude::*;

use crate::ensemble::mt19937;
use crate::ensemble::mt19937::{Stream, M, MATRIX_A, N};

verus! {

/// An infinite sequence of bits.
pub type Bits = spec_fn(nat) -> bool;

/// Bit `j` of `x`.
pub open spec fn bit(x: u32, j: u32) -> bool {
    (x >> j) & 1u32 == 1u32
}

/// Whether `x` is a raw MT19937 sequence.
pub open spec fn recurrent(x: Stream) -> bool {
    forall|t: nat| #[trigger] x(t + N as nat) == mt19937::twist(x(t), x(t + 1), x(t + M as nat))
}

/// Whether `s` is what some raw MT19937 sequence is handed out as.
pub open spec fn is_output(s: Stream) -> bool {
    exists|x: Stream| #[trigger] recurrent(x) && forall|i: nat| #[trigger] s(i) == mt19937::temper(x(i))
}

spec fn plus(f: Bits, g: Bits) -> Bits {
    |t: nat| f(t) != g(t)
}

spec fn zero() -> Bits {
    |t: nat| false
}

spec fn scaled(b: bool, f: Bits) -> Bits {
    |t: nat| b && f(t)
}

spec fn sh(f: Bits, m: nat) -> Bits {
    |t: nat| f(t + m)
}

spec fn dd(f: Bits) -> Bits {
    |t: nat| f(t + N as nat) != f(t + M as nat)
}

spec fn coeff(j: nat) -> bool {
    bit(MATRIX_A, j as u32)
}

spec fn pp(j: nat, f: Bits) -> Bits
    decreases j,
{
    if j == 0 {
        f
    } else {
        plus(dd(pp((j - 1) as nat, f)), scaled(coeff((j - 1) as nat), sh(f, j)))
    }
}

spec fn chi(f: Bits) -> Bits {
    plus(dd(pp(31, f)), sh(f, 31))
}

spec fn dd2(f: Bits) -> Bits {
    |t: nat| f(t + 2 * N as nat) != f(t + 2 * M as nat)
}

spec fn pp2(j: nat, f: Bits) -> Bits
    decreases j,
{
    if j == 0 {
        f
    } else {
        plus(dd2(pp2((j - 1) as nat, f)), scaled(coeff((j - 1) as nat), sh(f, 2 * j)))
    }
}

spec fn chi2(f: Bits) -> Bits {
    plus(dd2(pp2(31, f)), sh(f, 62))
}

proof fn lemma_pp_plus(j: nat, f: Bits, g: Bits)
    ensures
        pp(j, plus(f, g)) == plus(pp(j, f), pp(j, g)),
    decreases j,
{
    if j > 0 {
        lemma_pp_plus((j - 1) as nat, f, g);
    }
    assert(pp(j, plus(f, g)) =~= plus(pp(j, f), pp(j, g)));
}

proof fn lemma_pp_zero(j: nat)
    ensures
        pp(j, zero()) == zero(),
    decreases j,
{
    if j > 0 {
        lemma_pp_zero((j - 1) as nat);
    }
    assert(pp(j, zero()) =~= zero());
}

proof fn lemma_pp_sh(j: nat, f: Bits, m: nat)
    ensures
        pp(j, sh(f, m)) == sh(pp(j, f), m),
    decreases j,
{
    if j > 0 {
        lemma_pp_sh((j - 1) as nat, f, m);
        let g = pp((j - 1) as nat, f);
        assert forall|t: nat| #[trigger] pp(j, sh(f, m))(t) == sh(pp(j, f), m)(t) by {
            assert(t + N as nat + m == t + m + N as nat);
            assert(t + M as nat + m == t + m + M as nat);
            assert(t + j + m == t + m + j);
            assert(dd(sh(g, m))(t) == dd(g)(t + m));
        }
    }
    assert(pp(j, sh(f, m)) =~= sh(pp(j, f), m));
}

proof fn lemma_pp_dd(j: nat, f: Bits)
    ensures
        pp(j, dd(f)) == dd(pp(j, f)),
{
    assert(dd(f) =~= plus(sh(f, N as nat), sh(f, M as nat)));
    lemma_pp_plus(j, sh(f, N as nat), sh(f, M as nat));
    lemma_pp_sh(j, f, N as nat);
    lemma_pp_sh(j, f, M as nat);
    assert(dd(pp(j, f)) =~= plus(sh(pp(j, f), N as nat), sh(pp(j, f), M as nat)));
}

proof fn lemma_pp_scaled(j: nat, b: bool, f: Bits)
    ensures
        pp(j, scaled(b, f)) == scaled(b, pp(j, f)),
{
    if b {
        assert(scaled(b, f) =~= f);
        assert(scaled(b, pp(j, f)) =~= pp(j, f));
    } else {
        lemma_pp_zero(j);
        assert(scaled(b, f) =~= zero());
        assert(scaled(b, pp(j, f)) =~= zero());
    }
}

proof fn lemma_pp_pp(i: nat, j: nat, f: Bits)
    ensures
        pp(i, pp(j, f)) == pp(j, pp(i, f)),
    decreases i,
{
    if i > 0 {
        let h = (i - 1) as nat;
        lemma_pp_pp(h, j, f);
        lemma_pp_dd(j, pp(h, f));
        lemma_pp_sh(j, f, i);
        lemma_pp_scaled(j, coeff(h), sh(f, i));
        lemma_pp_plus(j, dd(pp(h, f)), scaled(coeff(h), sh(f, i)));
    }
}

proof fn lemma_dd_plus(f: Bits, g: Bits)
    ensures
        dd(plus(f, g)) == plus(dd(f), dd(g)),
{
    assert(dd(plus(f, g)) =~= plus(dd(f), dd(g)));
}

proof fn lemma_chi_plus(f: Bits, g: Bits)
    ensures
        chi(plus(f, g)) == plus(chi(f), chi(g)),
{
    lemma_pp_plus(31, f, g);
    lemma_dd_plus(pp(31, f), pp(31, g));
    assert(chi(plus(f, g)) =~= plus(chi(f), chi(g)));
}

/// What `chi` annihilates, each `P_j` and each shift of it annihilate too.
proof fn lemma_chi_kills(j: nat, f: Bits, m: nat)
    requires
        chi(f) == zero(),
    ensures
        chi(sh(pp(j, f), m)) == zero(),
{
    let g = sh(pp(j, f), m);
    lemma_pp_sh(31, pp(j, f), m);
    lemma_pp_pp(31, j, f);
    lemma_pp_dd(j, pp(31, f));
    lemma_pp_sh(j, f, 31);
    lemma_pp_plus(j, dd(pp(31, f)), sh(f, 31));
    lemma_pp_zero(j);
    assert(pp(j, chi(f)) == plus(dd(pp(31, pp(j, f))), sh(pp(j, f), 31)));
    assert(chi(pp(j, f)) =~= zero());
    assert forall|t: nat| #[trigger] chi(g)(t) == chi(pp(j, f))(t + m) by {
        assert(t + N as nat + m == t + m + N as nat);
        assert(t + M as nat + m == t + m + M as nat);
        assert(t + 31 + m == t + m + 31);
    }
    assert(chi(g) =~= zero());
}

/// Each operator applied twice is the operator in `S^2`.
proof fn lemma_pp_square(j: nat, f: Bits)
    ensures
        pp(j, pp(j, f)) == pp2(j, f),
    decreases j,
{
    if j > 0 {
        let h = (j - 1) as nat;
        let g = pp(h, f);
        lemma_pp_square(h, f);
        let lead = dd(g);
        let tail = scaled(coeff(h), sh(f, j));
        lemma_pp_plus(h, lead, tail);
        lemma_pp_dd(h, g);
        lemma_pp_scaled(h, coeff(h), sh(f, j));
        lemma_pp_sh(h, f, j);
        let q = pp2(h, f);
        assert forall|t: nat| #[trigger] pp(j, pp(j, f))(t) == pp2(j, f)(t) by {
            let n = N as nat;
            let m = M as nat;
            assert(pp(h, pp(j, f)) == plus(dd(q), scaled(coeff(h), sh(g, j))));
            assert(t + n + n == t + 2 * n);
            assert(t + m + m == t + 2 * m);
            assert(t + n + m == t + m + n);
            assert(t + j + j == t + 2 * j);
            assert(t + n + j == t + j + n);
            assert(t + m + j == t + j + m);
            assert(dd(dd(q))(t) == dd2(q)(t));
            assert(dd(sh(g, j))(t) == sh(dd(g), j)(t));
        }
        assert(pp(j, pp(j, f)) =~= pp2(j, f));
    }
}

proof fn lemma_chi_square(f: Bits)
    ensures
        chi(chi(f)) == chi2(f),
{
    let g = pp(31, f);
    lemma_pp_square(31, f);
    lemma_pp_plus(31, dd(g), sh(f, 31));
    lemma_pp_dd(31, g);
    lemma_pp_sh(31, f, 31);
    let q = pp2(31, f);
    assert(pp(31, chi(f)) == plus(dd(q), sh(g, 31)));
    assert forall|t: nat| #[trigger] chi(chi(f))(t) == chi2(f)(t) by {
        let n = N as nat;
        let m = M as nat;
        assert(t + n + n == t + 2 * n);
        assert(t + m + m == t + 2 * m);
        assert(t + n + m == t + m + n);
        assert(t + 31 + 31 == t + 62);
        assert(t + n + 31 == t + 31 + n);
        assert(t + m + 31 == t + 31 + m);
        assert(dd(dd(q))(t) == dd2(q)(t));
        assert(dd(sh(g, 31))(t) == sh(dd(g), 31)(t));
    }
    assert(chi(chi(f)) =~= chi2(f));
}

proof fn lemma_pp_ones(j: nat, f: Bits, t: nat)
    requires
        forall|i: nat| #[trigger] f(i),
    ensures
        pp(j, f)(t) == (j == 0 || coeff((j - 1) as nat)),
    decreases j,
{
    if j > 0 {
        lemma_pp_ones((j - 1) as nat, f, t + N as nat);
        lemma_pp_ones((j - 1) as nat, f, t + M as nat);
        assert(f(t + j));
    }
}

proof fn lemma_pp2_odd_ones(j: nat, f: Bits, t: nat)
    requires
        forall|i: nat| i % 2 == 1 ==> #[trigger] f(i),
        t % 2 == 1,
    ensures
        pp2(j, f)(t) == (j == 0 || coeff((j - 1) as nat)),
    decreases j,
{
    if j > 0 {
        lemma_pp2_odd_ones((j - 1) as nat, f, t + 2 * N as nat);
        lemma_pp2_odd_ones((j - 1) as nat, f, t + 2 * M as nat);
        assert(f(t + 2 * j));
    } else {
        assert(f(t));
    }
}

/// Bit `j` of the words of `x`.
spec fn bits_at(x: Stream, j: u32) -> Bits {
    |t: nat| bit(x(t), j)
}

proof fn lemma_twist_bits(a: u32, b: u32, c: u32, j: u32)
    by (bit_vector)
    requires
        j < 32,
    ensures
        j < 30 ==> bit(mt19937::twist(a, b, c), j) == (bit(c, j) != (bit(b, (j + 1) as u32) != (bit(b, 0)
            && bit(MATRIX_A, j)))),
        j == 30 ==> bit(mt19937::twist(a, b, c), j) == (bit(c, j) != (bit(a, 31) != (bit(b, 0)
            && bit(MATRIX_A, j)))),
        j == 31 ==> bit(mt19937::twist(a, b, c), j) == (bit(c, j) != bit(b, 0)),
{
}

proof fn lemma_temper_top(x: u32)
    by (bit_vector)
    ensures
        bit(mt19937::temper(x), 31) == ((bit(x, 31) != bit(x, 27)) != (bit(x, 24) != bit(x, 16))),
{
}

/// Bit `j` of a raw sequence, shifted by `j`, is `P_j` applied to its lowest bits.
proof fn lemma_raw_bits(x: Stream, j: nat)
    requires
        recurrent(x),
        j <= 30,
    ensures
        sh(bits_at(x, j as u32), j) == pp(j, bits_at(x, 0)),
    decreases j,
{
    let z = bits_at(x, 0);
    if j == 0 {
        assert(sh(bits_at(x, 0), 0) =~= z);
    } else {
        let h = (j - 1) as nat;
        lemma_raw_bits(x, h);
        let c = bits_at(x, h as u32);
        assert forall|t: nat| #[trigger] sh(bits_at(x, j as u32), j)(t) == pp(j, z)(t) by {
            let u = t + h;
            lemma_twist_bits(x(u), x(u + 1), x(u + M as nat), h as u32);
            assert(x(u + N as nat) == mt19937::twist(x(u), x(u + 1), x(u + M as nat)));
            assert(u + N as nat == t + N as nat + h);
            assert(u + M as nat == t + M as nat + h);
            assert(sh(c, h)(t + N as nat) == c(u + N as nat));
            assert(sh(c, h)(t + M as nat) == c(u + M as nat));
            assert(u + 1 == t + j);
        }
        assert(sh(bits_at(x, j as u32), j) =~= pp(j, z));
    }
}

proof fn lemma_raw_top_bit(x: Stream)
    requires
        recurrent(x),
    ensures
        sh(bits_at(x, 31), 30) == pp(31, bits_at(x, 0)),
        chi(bits_at(x, 0)) == zero(),
{
    let z = bits_at(x, 0);
    lemma_raw_bits(x, 30);
    let c = bits_at(x, 30);
    assert forall|t: nat| #[trigger] sh(bits_at(x, 31), 30)(t) == pp(31, z)(t) by {
        let u = t + 30;
        lemma_twist_bits(x(u), x(u + 1), x(u + M as nat), 30);
        assert(x(u + N as nat) == mt19937::twist(x(u), x(u + 1), x(u + M as nat)));
        assert(sh(c, 30)(t + N as nat) == c(u + N as nat));
        assert(sh(c, 30)(t + M as nat) == c(u + M as nat));
        assert(u + 1 == t + 31);
    }
    assert(sh(bits_at(x, 31), 30) =~= pp(31, z));
    let d = bits_at(x, 31);
    assert forall|t: nat| #[trigger] chi(z)(t) == false by {
        let u = t + 30;
        lemma_twist_bits(x(u), x(u + 1), x(u + M as nat), 31);
        assert(x(u + N as nat) == mt19937::twist(x(u), x(u + 1), x(u + M as nat)));
        assert(sh(d, 30)(t + N as nat) == d(u + N as nat));
        assert(sh(d, 30)(t + M as nat) == d(u + M as nat));
        assert(u + 1 == t + 31);
    }
    assert(chi(z) =~= zero());
}

/// The top output bits of `x`, 30 places on, as a combination of `P_j` of the lowest bits.
spec fn top_bits(x: Stream) -> Bits {
    let z = bits_at(x, 0);
    plus(plus(pp(31, z), sh(pp(27, z), 3)), plus(sh(pp(24, z), 6), sh(pp(16, z), 14)))
}

proof fn lemma_top_bits(x: Stream)
    requires
        recurrent(x),
    ensures
        chi(top_bits(x)) == zero(),
        forall|t: nat| #[trigger] top_bits(x)(t) == bit(mt19937::temper(x(t + 30)), 31),
{
    let z = bits_at(x, 0);
    lemma_raw_top_bit(x);
    lemma_raw_bits(x, 27);
    lemma_raw_bits(x, 24);
    lemma_raw_bits(x, 16);
    lemma_chi_kills(31, z, 0);
    lemma_chi_kills(27, z, 3);
    lemma_chi_kills(24, z, 6);
    lemma_chi_kills(16, z, 14);
    assert(sh(pp(31, z), 0) =~= pp(31, z));
    lemma_chi_plus(pp(31, z), sh(pp(27, z), 3));
    lemma_chi_plus(sh(pp(24, z), 6), sh(pp(16, z), 14));
    lemma_chi_plus(
        plus(pp(31, z), sh(pp(27, z), 3)),
        plus(sh(pp(24, z), 6), sh(pp(16, z), 14)),
    );
    assert(chi(top_bits(x)) =~= zero());
    assert forall|t: nat| #[trigger] top_bits(x)(t) == bit(mt19937::temper(x(t + 30)), 31) by {
        lemma_temper_top(x(t + 30));
        assert(sh(bits_at(x, 31), 30)(t) == bit(x(t + 30), 31));
        assert(sh(bits_at(x, 27), 27)(t + 3) == bit(x(t + 3 + 27), 27));
        assert(sh(bits_at(x, 24), 24)(t + 6) == bit(x(t + 6 + 24), 24));
        assert(sh(bits_at(x, 16), 16)(t + 14) == bit(x(t + 14 + 16), 16));
        assert(t + 3 + 27 == t + 30);
        assert(t + 6 + 24 == t + 30);
        assert(t + 14 + 16 == t + 30);
    }
}

/// Some word of every output stream has a zero top bit.
pub proof fn lemma_top_bit_clears(s: Stream)
    requires
        is_output(s),
    ensures
        exists|i: nat| !bit(#[trigger] s(i), 31),
{
    let x = choose|x: Stream| #[trigger] recurrent(x) && forall|i: nat| #[trigger] s(i) == mt19937::temper(x(i));
    if forall|i: nat| bit(#[trigger] s(i), 31) {
        lemma_top_bits(x);
        let f = top_bits(x);
        assert forall|t: nat| #[trigger] f(t) by {
            assert(s(t + 30) == mt19937::temper(x(t + 30)));
        }
        lemma_pp_ones(31, f, N as nat);
        lemma_pp_ones(31, f, M as nat);
        assert(pp(31, f)(0 + N as nat) == pp(31, f)(0 + M as nat));
        assert(chi(f)(0) == f(0 + 31));
        assert(f(0 + 31));
        assert(zero()(0) == false);
    }
}

/// Every second word of `s`, from the second one on.
pub open spec fn odd_word(s: Stream, i: nat) -> u32 {
    s(2 * i + 1)
}

proof fn lemma_chi2_odd_ones(f: Bits)
    requires
        forall|t: nat| t % 2 == 1 ==> #[trigger] f(t),
    ensures
        chi2(f)(1),
{
    let g = pp2(31, f);
    lemma_pp2_odd_ones(31, f, 1249);
    lemma_pp2_odd_ones(31, f, 795);
    assert(dd2(g)(1) == (g(1249) != g(795)));
    assert(sh(f, 62)(1) == f(63));
    assert(f(63));
    assert(chi2(f)(1) == (dd2(g)(1) != sh(f, 62)(1)));
}

/// No sequence that `chi` annihilates is one at every odd position.
proof fn lemma_odd_ones_survive(f: Bits)
    requires
        chi(f) == zero(),
    ensures
        exists|t: nat| t % 2 == 1 && !#[trigger] f(t),
{
    assert(chi2(f) == zero()) by {
        lemma_chi_square(f);
        lemma_pp_zero(31);
        assert(chi(zero()) =~= zero());
    }
    if forall|t: nat| t % 2 == 1 ==> #[trigger] f(t) {
        lemma_chi2_odd_ones(f);
        assert(zero()(1) == false);
    }
}

/// Some word at an odd position of every output stream has a zero top bit.
pub proof fn lemma_odd_top_bit_clears(s: Stream)
    requires
        is_output(s),
    ensures
        exists|i: nat| !bit(#[trigger] odd_word(s, i), 31),
{
    let x = choose|x: Stream| #[trigger] recurrent(x) && forall|i: nat| #[trigger] s(i) == mt19937::temper(x(i));
    lemma_top_bits(x);
    let f = top_bits(x);
    lemma_odd_ones_survive(f);
    let t = choose|t: nat| t % 2 == 1 && !#[trigger] f(t);
    let i = ((t + 29) / 2) as nat;
    assert(2 * i + 1 == t + 30);
    assert(s(2 * i + 1) == mt19937::temper(x(t + 30)));
    assert(!bit(odd_word(s, i), 31));
}

} // verus!
