//! The sampling routines of CPython's `random.Random` on top of MT19937: bounded integers by
//! rejection, samples without replacement, and the Fisher-Yates shuffle.
//!
//! Each routine is specified as a function of the stream it reads, giving the value and the
//! stream that is left. Two generators with the same stream therefore agree on everything they
//! are asked in the same order.

use std::collections::HashSet;

use vstd::arithmetic::power2;
use vstd::prelude::*;

use crate::ensemble::mt19937;
use crate::ensemble::mt19937::{Mt19937, Stream};
use crate::ensemble::rejection;

verus! {

broadcast use vstd::std_specs::hash::group_hash_axioms;

/// Number of binary digits of `n`; zero has none.
pub open spec fn bit_len(n: nat) -> nat
    decreases n,
{
    if n == 0 {
        0
    } else {
        1 + bit_len(n / 2)
    }
}

/// The `i`-th value that repeated draws of `k` bits take from `s`.
pub open spec fn draw(s: Stream, k: nat, i: nat) -> u64 {
    mt19937::bits_of(mt19937::after(s, i * mt19937::words_for(k as int)), k as int)
}

/// Whether the `i`-th draw from `s` lies below `n`.
pub open spec fn accepts(s: Stream, n: nat, i: nat) -> bool {
    draw(s, bit_len(n), i) < n
}

/// Whether draw `i` is the first one from `s` that lies below `n`.
pub open spec fn accepts_first(s: Stream, n: nat, i: nat) -> bool {
    accepts(s, n, i) && forall|j: nat| j < i ==> !#[trigger] accepts(s, n, j)
}

/// How many draws from `s` are rejected before one lies below `n`.
pub open spec fn rejected(s: Stream, n: nat) -> nat {
    choose|i: nat| accepts_first(s, n, i)
}

/// A uniform integer below `n` drawn from `s`, and the stream that is left: the first draw of
/// `bit_len(n)` bits that lies below `n`. For `n = 0` it is zero, and nothing is drawn.
pub open spec fn below(s: Stream, n: nat) -> (nat, Stream) {
    if n == 0 {
        (0, s)
    } else {
        let i = rejected(s, n);
        (draw(s, bit_len(n), i) as nat, mt19937::after(s, (i + 1) * mt19937::words_for(bit_len(n) as int)))
    }
}

/// The least power of four, from `p` on, that is at least `m`.
pub open spec fn power_of_four_from(p: nat, m: nat) -> nat
    decreases (if p < m { m - p } else { 0 }),
{
    if p == 0 || p >= m {
        p
    } else {
        power_of_four_from(4 * p, m)
    }
}

/// The size of a set of `k` elements, measured in list elements: populations up to this size
/// are copied into a pool, larger ones are sampled by rejection.
pub open spec fn set_size(k: nat) -> nat {
    if k > 5 {
        21 + power_of_four_from(1, 3 * k)
    } else {
        21
    }
}

/// `k` draws without replacement from the first `live` entries of `pool`: each drawn entry is
/// replaced by the last live one.
pub open spec fn pool_draws(s: Stream, pool: Seq<usize>, live: nat, k: nat) -> (Seq<usize>, Stream)
    decreases k,
{
    if k == 0 {
        (Seq::empty(), s)
    } else {
        let (j, s1) = below(s, live);
        let rest = pool_draws(
            s1,
            pool.update(j as int, pool[live - 1]),
            (live - 1) as nat,
            (k - 1) as nat,
        );
        (seq![pool[j as int]] + rest.0, rest.1)
    }
}

/// How often a collision is answered by another draw.
pub const MAX_REDRAWS: u64 = u64::MAX;

/// The least index, from `from` on, that `chosen` does not hold.
pub open spec fn first_free(chosen: Seq<usize>, from: nat, n: nat) -> nat
    decreases n - from,
{
    if from >= n || !chosen.contains(from as usize) {
        from
    } else {
        first_free(chosen, from + 1, n)
    }
}

/// An integer below `n` that `chosen` does not hold, drawn from `s`, and the stream that is
/// left: collisions are redrawn; after `redraws` of them the least free index is taken.
pub open spec fn fresh_draw(s: Stream, n: nat, chosen: Seq<usize>, redraws: nat) -> (nat, Stream)
    decreases redraws,
{
    let (j, s1) = below(s, n);
    if !chosen.contains(j as usize) {
        (j, s1)
    } else if redraws == 0 {
        (first_free(chosen, 0, n), s1)
    } else {
        fresh_draw(s1, n, chosen, (redraws - 1) as nat)
    }
}

/// `chosen` extended to `k` distinct integers below `n`, drawn from `s`.
pub open spec fn set_draws(s: Stream, n: nat, chosen: Seq<usize>, k: nat) -> (Seq<usize>, Stream)
    decreases k - chosen.len(),
{
    if chosen.len() >= k {
        (chosen, s)
    } else {
        let (j, s1) = fresh_draw(s, n, chosen, MAX_REDRAWS as nat);
        set_draws(s1, n, chosen.push(j as usize), k)
    }
}

/// The identity on `0..n`.
pub open spec fn index_range(n: nat) -> Seq<usize> {
    Seq::new(n, |i: int| i as usize)
}

/// `k` of the integers below `n` in the order in which they are drawn from `s`, and the stream
/// that is left.
pub open spec fn sample_of(s: Stream, n: nat, k: nat) -> (Seq<usize>, Stream) {
    if n <= set_size(k) {
        pool_draws(s, index_range(n), n, k)
    } else {
        set_draws(s, n, Seq::empty(), k)
    }
}

/// `x` with the elements at `i` and `j` exchanged.
pub open spec fn swapped<T>(x: Seq<T>, i: int, j: int) -> Seq<T> {
    x.update(i, x[j]).update(j, x[i])
}

/// The Fisher-Yates shuffle of `x` from position `i` downwards, and the stream that is left.
pub open spec fn shuffled<T>(s: Stream, x: Seq<T>, i: nat) -> (Seq<T>, Stream)
    decreases i,
{
    if i == 0 {
        (x, s)
    } else {
        let (j, s1) = below(s, i + 1);
        shuffled(s1, swapped(x, i as int, j as int), (i - 1) as nat)
    }
}

/// The shuffle of all of `x`.
pub open spec fn shuffle_of<T>(s: Stream, x: Seq<T>) -> (Seq<T>, Stream) {
    if x.len() < 2 {
        (x, s)
    } else {
        shuffled(s, x, (x.len() - 1) as nat)
    }
}

/// Bounds on the number of binary digits of a 64-bit number.
pub proof fn lemma_bit_len_bounds(n: nat)
    requires
        0 < n <= u64::MAX,
    ensures
        1 <= bit_len(n) <= 64,
        power2::pow2((bit_len(n) - 1) as nat) <= n < power2::pow2(bit_len(n)),
    decreases n,
{
    reveal_with_fuel(bit_len, 2);
    if n > 1 {
        lemma_bit_len_bounds(n / 2);
        power2::lemma_pow2_unfold((bit_len(n) - 1) as nat);
        power2::lemma_pow2_unfold(bit_len(n));
        power2::lemma2_to64();
        lemma_bit_len_at_most(n, 64);
    } else {
        power2::lemma2_to64();
    }
}

proof fn lemma_bit_len_at_most(n: nat, b: nat)
    requires
        n < power2::pow2(b),
    ensures
        bit_len(n) <= b,
    decreases b,
{
    if n > 0 {
        if b == 0 {
            power2::lemma2_to64();
        } else {
            power2::lemma_pow2_unfold(b);
            lemma_bit_len_at_most(n / 2, (b - 1) as nat);
        }
    }
}

/// A draw of `k` bits whose most significant bit is zero is below `2^(k-1)`.
proof fn lemma_small_draw(w0: u32, w1: u32, k: u32)
    requires
        1 <= k <= 64,
    ensures
        k <= 32 && !rejection::bit(w0, 31) ==> ((w0 >> ((32 - k) as u32)) as u64)
            < power2::pow2((k - 1) as nat),
        k > 32 && !rejection::bit(w1, 31) ==> (w0 as u64) | (((w1 >> ((64 - k) as u32)) as u64) << 32u64)
            < power2::pow2((k - 1) as nat),
{
    let e = (k - 1) as u64;
    power2::lemma2_to64();
    power2::lemma_pow2_strictly_increases((k - 1) as nat, 64);
    vstd::bits::lemma_u64_shl_is_mul(1, e);
    assert(1u64 << e == power2::pow2((k - 1) as nat));
    assert(1 <= k <= 32 && e == k - 1 && !rejection::bit(w0, 31) ==> ((w0 >> ((32 - k) as u32)) as u64) < 1u64 << e)
        by (bit_vector);
    assert(32 < k <= 64 && e == k - 1 && !rejection::bit(w1, 31) ==> (w0 as u64) | (((w1 >> ((64 - k) as u32)) as u64)
        << 32u64) < 1u64 << e) by (bit_vector);
}

/// Rejection sampling ends: some draw from every output stream lies below `n`.
pub proof fn lemma_some_draw_accepted(s: Stream, n: nat)
    requires
        rejection::is_output(s),
        0 < n <= u64::MAX,
    ensures
        exists|i: nat| #[trigger] accepts(s, n, i),
{
    lemma_bit_len_bounds(n);
    let k = bit_len(n);
    if k <= 32 {
        rejection::lemma_top_bit_clears(s);
        let i = choose|i: nat| !rejection::bit(#[trigger] s(i), 31);
        lemma_small_draw(s(i), s(i + 1), k as u32);
        assert(mt19937::after(s, i * 1)(0) == s(i));
        assert(accepts(s, n, i));
    } else {
        rejection::lemma_odd_top_bit_clears(s);
        let i = choose|i: nat| !rejection::bit(#[trigger] rejection::odd_word(s, i), 31);
        lemma_small_draw(s(2 * i), s(2 * i + 1), k as u32);
        assert(i * 2 == 2 * i);
        assert(mt19937::after(s, i * 2)(0) == s(2 * i));
        assert(mt19937::after(s, i * 2)(1) == s(2 * i + 1));
        assert(accepts(s, n, i));
    }
}

proof fn lemma_least_accepted(s: Stream, n: nat, i: nat)
    requires
        accepts(s, n, i),
    ensures
        exists|j: nat| accepts_first(s, n, j),
    decreases i,
{
    if !accepts_first(s, n, i) {
        let j = choose|j: nat| j < i && #[trigger] accepts(s, n, j);
        lemma_least_accepted(s, n, j);
    }
}

/// The number of rejected draws is well defined.
pub proof fn lemma_rejected(s: Stream, n: nat)
    requires
        rejection::is_output(s),
        0 < n <= u64::MAX,
    ensures
        accepts_first(s, n, rejected(s, n)),
{
    lemma_some_draw_accepted(s, n);
    lemma_least_accepted(s, n, choose|i: nat| #[trigger] accepts(s, n, i));
}

proof fn lemma_after_output(s: Stream, m: nat)
    requires
        rejection::is_output(s),
    ensures
        rejection::is_output(mt19937::after(s, m)),
{
    let x = choose|x: Stream|
        #[trigger] rejection::recurrent(x) && forall|i: nat|
            #[trigger] s(i) == mt19937::temper(x(i));
    let y = mt19937::after(x, m);
    assert forall|t: nat| #[trigger]
        y(t + mt19937::N as nat) == mt19937::twist(
            y(t),
            y(t + 1),
            y(t + mt19937::M as nat),
        ) by {
        assert(t + mt19937::N as nat + m == t + m + mt19937::N as nat);
        assert(t + mt19937::M as nat + m == t + m + mt19937::M as nat);
        assert(t + 1 + m == t + m + 1);
        assert(x(t + m + mt19937::N as nat) == y(t + mt19937::N as nat));
    }
    assert(rejection::recurrent(y));
    assert forall|i: nat| #[trigger] mt19937::after(s, m)(i) == mt19937::temper(y(i)) by {}
}

/// A drawn integer lies below its bound, and the rest of an output stream is one.
pub proof fn lemma_below(s: Stream, n: nat)
    requires
        rejection::is_output(s),
        n <= u64::MAX,
    ensures
        n > 0 ==> below(s, n).0 < n,
        rejection::is_output(below(s, n).1),
{
    if n > 0 {
        lemma_rejected(s, n);
        lemma_after_output(s, (rejected(s, n) + 1) * mt19937::words_for(bit_len(n) as int));
    }
}

/// CPython's `random.Random`, as far as sampling goes.
pub struct PyRandom {
    mt: Mt19937,
}

impl PyRandom {
    /// The words that the generator will hand out.
    pub closed spec fn stream(&self) -> Stream {
        self.mt.stream()
    }

    /// The generator seeded by a non-negative integer.
    pub fn new(seed: u64) -> (r: Self)
        ensures
            r.stream() == mt19937::fresh_stream(mt19937::seeded_block(mt19937::seed_words(seed))),
    {
        PyRandom { mt: Mt19937::from_u64_seed(seed) }
    }

    /// Every generator reads an output stream of MT19937.
    pub proof fn lemma_stream_is_output(&self)
        ensures
            rejection::is_output(self.stream()),
    {
        self.mt.lemma_stream_is_output();
    }

    fn bit_length(n: u64) -> (r: u32)
        ensures
            r == bit_len(n as nat),
            r <= 64,
    {
        proof {
            if n > 0 {
                lemma_bit_len_bounds(n as nat);
            }
        }
        let mut left: u64 = n;
        let mut bits: u32 = 0;
        while left > 0
            invariant
                bits + bit_len(left as nat) == bit_len(n as nat),
                bit_len(n as nat) <= 64,
            decreases left,
        {
            left = left / 2;
            bits += 1;
        }
        bits
    }

    /// A uniform integer below `n`, by rejection; zero where `n` is zero.
    pub fn randbelow(&mut self, n: u64) -> (r: u64)
        ensures
            (r as nat, final(self).stream()) == below(old(self).stream(), n as nat),
            n > 0 ==> r < n,
    {
        let ghost s = self.stream();
        if n == 0 {
            return 0;
        }
        let k: u32 = Self::bit_length(n);
        let ghost w = mt19937::words_for(k as int);
        proof {
            self.lemma_stream_is_output();
            lemma_rejected(s, n as nat);
            lemma_bit_len_bounds(n as nat);
        }
        let ghost mut i: nat = 0;
        assert(mt19937::after(s, 0 * w) =~= s);
        loop
            invariant
                1 <= k <= 64,
                k == bit_len(n as nat),
                w == mt19937::words_for(k as int),
                n > 0,
                accepts_first(s, n as nat, rejected(s, n as nat)),
                i <= rejected(s, n as nat),
                self.stream() == mt19937::after(s, i * w),
                s == old(self).stream(),
            decreases rejected(s, n as nat) - i,
        {
            let r: u64 = self.mt.getrandbits(k);
            assert(r == draw(s, k as nat, i));
            assert(mt19937::after(mt19937::after(s, i * w), w) =~= mt19937::after(s, (i + 1) * w)) by {
                assert((i + 1) * w == i * w + w) by (nonlinear_arith);
            }
            if r < n {
                assert(accepts(s, n as nat, i));
                assert(i == rejected(s, n as nat));
                return r;
            }
            assert(!accepts(s, n as nat, i));
            proof {
                i = i + 1;
            }
        }
    }

    /// The least index below `n` that `chosen` does not hold.
    fn first_free_index(chosen: &Vec<usize>, n: usize) -> (r: usize)
        requires
            chosen@.len() < n,
        ensures
            r == first_free(chosen@, 0, n as nat),
            r < n,
            !chosen@.contains(r),
    {
        let mut from: usize = 0;
        while from < n
            invariant
                from <= n,
                first_free(chosen@, 0, n as nat) == first_free(chosen@, from as nat, n as nat),
                forall|v: usize| v < from ==> chosen@.contains(v),
            decreases n - from,
        {
            let mut at: usize = 0;
            while at < chosen.len() && chosen[at] != from
                invariant
                    at <= chosen@.len(),
                    forall|q: int| 0 <= q < at ==> chosen@[q] != from,
                decreases chosen@.len() - at,
            {
                at += 1;
            }
            if at == chosen.len() {
                return from;
            }
            assert(chosen@[at as int] == from);
            from += 1;
        }
        proof {
            lemma_some_index_free(chosen@, n as nat);
        }
        from
    }

    /// An index below `n` that is not yet chosen. A collision is redrawn, at most `MAX_REDRAWS`
    /// times in a row, after which the least free index is taken.
    fn fresh_index(&mut self, n: usize, chosen: &Vec<usize>, members: &HashSet<usize>) -> (r: usize)
        requires
            chosen@.len() < n,
            forall|v: usize| members@.contains(v) <==> chosen@.contains(v),
        ensures
            (r as nat, final(self).stream()) == fresh_draw(
                old(self).stream(),
                n as nat,
                chosen@,
                MAX_REDRAWS as nat,
            ),
            r < n,
            !chosen@.contains(r),
    {
        let ghost s = self.stream();
        let mut redraws: u64 = MAX_REDRAWS;
        let mut j: usize = self.randbelow(n as u64) as usize;
        while members.contains(&j)
            invariant
                s == old(self).stream(),
                chosen@.len() < n,
                j < n,
                forall|v: usize| members@.contains(v) <==> chosen@.contains(v),
                fresh_draw(s, n as nat, chosen@, MAX_REDRAWS as nat) == (if !chosen@.contains(j) {
                    (j as nat, self.stream())
                } else if redraws == 0 {
                    (first_free(chosen@, 0, n as nat), self.stream())
                } else {
                    fresh_draw(self.stream(), n as nat, chosen@, (redraws - 1) as nat)
                }),
            decreases redraws,
        {
            if redraws == 0 {
                return Self::first_free_index(chosen, n);
            }
            redraws -= 1;
            j = self.randbelow(n as u64) as usize;
        }
        j
    }

    /// `k` distinct integers below `n`, in the order in which they are drawn.
    pub fn sample_indices(&mut self, n: usize, k: usize) -> (r: Vec<usize>)
        requires
            k <= n,
        ensures
            (r@, final(self).stream()) == sample_of(old(self).stream(), n as nat, k as nat),
            r@.len() == k,
            r@.no_duplicates(),
            forall|i: int| 0 <= i < k ==> r@[i] < n,
            k == n ==> forall|v: usize| v < n ==> r@.contains(v),
    {
        let ghost s = self.stream();
        let mut size: u128 = 21;
        if k > 5 {
            let mut power: u128 = 1;
            while power < 3 * (k as u128)
                invariant
                    1 <= power,
                    power < 4 * 3 * 0x1_0000_0000_0000_0000,
                    k <= u64::MAX,
                    power_of_four_from(1, 3 * (k as nat)) == power_of_four_from(power as nat, 3 * (k as nat)),
                decreases 12 * 0x1_0000_0000_0000_0000 - power,
            {
                power = 4 * power;
            }
            size = size + power;
        }
        assert(size == set_size(k as nat));
        proof {
            self.lemma_stream_is_output();
        }
        let drawn: Vec<usize> = if (n as u128) <= size {
            self.sample_from_pool(n, k)
        } else {
            self.sample_by_rejection(n, k)
        };
        proof {
            if k == n {
                lemma_all_indices(drawn@, n as nat);
            }
        }
        drawn
    }

    fn sample_from_pool(&mut self, n: usize, k: usize) -> (r: Vec<usize>)
        requires
            k <= n,
        ensures
            (r@, final(self).stream()) == pool_draws(
                old(self).stream(),
                index_range(n as nat),
                n as nat,
                k as nat,
            ),
            r@.len() == k,
            r@.no_duplicates(),
            forall|i: int| 0 <= i < k ==> r@[i] < n,
    {
        let ghost s = self.stream();
        let mut pool: Vec<usize> = Vec::new();
        let mut fill: usize = 0;
        while fill < n
            invariant
                fill <= n,
                pool@ == index_range(fill as nat),
            decreases n - fill,
        {
            pool.push(fill);
            fill += 1;
            assert(pool@ =~= index_range(fill as nat));
        }
        let ghost all = pool_draws(s, index_range(n as nat), n as nat, k as nat);
        let mut result: Vec<usize> = Vec::new();
        let mut i: usize = 0;
        assert(result@ + all.0 =~= all.0);
        while i < k
            invariant
                i <= k <= n,
                pool@.len() == n,
                result@.len() == i,
                ({
                    let rest = pool_draws(self.stream(), pool@, (n - i) as nat, (k - i) as nat);
                    all == (result@ + rest.0, rest.1)
                }),
                result@.no_duplicates(),
                forall|a: int| 0 <= a < i ==> result@[a] < n,
                forall|a: int| 0 <= a < n - i ==> pool@[a] < n,
                forall|a: int, b: int| 0 <= a < b < n - i ==> pool@[a] != pool@[b],
                forall|a: int, b: int| 0 <= a < i && 0 <= b < n - i ==> result@[a] != pool@[b],
            decreases k - i,
        {
            let live: usize = n - i;
            let ghost before = self.stream();
            let ghost pool0 = pool@;
            let ghost result0 = result@;
            let ghost rest0 = pool_draws(before, pool0, live as nat, (k - i) as nat);
            let j: usize = self.randbelow(live as u64) as usize;
            let picked: usize = pool[j];
            let last: usize = pool[live - 1];
            result.push(picked);
            pool.set(j, last);
            i += 1;
            proof {
                let rest = pool_draws(self.stream(), pool@, (n - i) as nat, (k - i) as nat);
                assert(rest0 == (seq![picked] + rest.0, rest.1));
                assert(result@ + rest.0 =~= result0 + rest0.0);
                assert forall|a: int, b: int| 0 <= a < i && 0 <= b < n - i implies result@[a] != pool@[b] by {
                    assert(pool@[b] == (if b == j { pool0[live - 1] } else { pool0[b] }));
                    if a < i - 1 {
                        assert(result@[a] == result0[a]);
                    }
                }
            }
        }
        assert(pool_draws(self.stream(), pool@, (n - i) as nat, 0).0 =~= Seq::<usize>::empty());
        assert(result@ + Seq::<usize>::empty() =~= result@);
        result
    }

    fn sample_by_rejection(&mut self, n: usize, k: usize) -> (r: Vec<usize>)
        requires
            k <= n,
        ensures
            (r@, final(self).stream()) == set_draws(old(self).stream(), n as nat, Seq::empty(), k as nat),
            r@.len() == k,
            r@.no_duplicates(),
            forall|i: int| 0 <= i < k ==> r@[i] < n,
    {
        let mut members: HashSet<usize> = HashSet::new();
        let mut result: Vec<usize> = Vec::new();
        while result.len() < k
            invariant
                k <= n,
                result@.len() <= k,
                set_draws(old(self).stream(), n as nat, Seq::empty(), k as nat) == set_draws(
                    self.stream(),
                    n as nat,
                    result@,
                    k as nat,
                ),
                forall|v: usize| members@.contains(v) <==> result@.contains(v),
                result@.no_duplicates(),
                forall|a: int| 0 <= a < result@.len() ==> result@[a] < n,
            decreases k - result@.len(),
        {
            let ghost before = result@;
            let j: usize = self.fresh_index(n, &result, &members);
            members.insert(j);
            result.push(j);
            assert forall|v: usize| members@.contains(v) <==> result@.contains(v) by {
                assert(result@[before.len() as int] == j);
                if before.contains(v) {
                    let q = choose|q: int| 0 <= q < before.len() && before[q] == v;
                    assert(result@[q] == v);
                }
                if result@.contains(v) && v != j {
                    let q = choose|q: int| 0 <= q < result@.len() && result@[q] == v;
                    assert(before[q] == v);
                }
            }
        }
        result
    }

    /// `k` elements of `population`, each taken at most once, in the order in which they are
    /// drawn.
    pub fn sample<T: Clone>(&mut self, population: &[T], k: usize) -> (r: Vec<T>)
        requires
            k <= population@.len(),
        ensures
            ({
                let drawn = sample_of(old(self).stream(), population@.len(), k as nat);
                &&& final(self).stream() == drawn.1
                &&& r@.len() == drawn.0.len() == k
                &&& forall|i: int|
                    0 <= i < k ==> drawn.0[i] < population@.len() && cloned::<T>(
                        population@[drawn.0[i] as int],
                        #[trigger] r@[i],
                    )
            }),
    {
        let drawn: Vec<usize> = self.sample_indices(population.len(), k);
        let mut result: Vec<T> = Vec::new();
        let mut i: usize = 0;
        while i < k
            invariant
                i <= k == drawn@.len(),
                result@.len() == i,
                forall|a: int| 0 <= a < k ==> drawn@[a] < population@.len(),
                forall|a: int|
                    0 <= a < i ==> cloned::<T>(population@[drawn@[a] as int], #[trigger] result@[a]),
            decreases k - i,
        {
            result.push(population[drawn[i]].clone());
            i += 1;
        }
        result
    }

    /// Shuffles `x` in place.
    pub fn shuffle<T>(&mut self, x: &mut [T])
        ensures
            (final(x)@, final(self).stream()) == shuffle_of(old(self).stream(), old(x)@),
            final(x)@.to_multiset() == old(x)@.to_multiset(),
    {
        let len: usize = x.len();
        if len < 2 {
            return;
        }
        let mut i: usize = len - 1;
        while i > 0
            invariant
                i < len == x@.len(),
                shuffle_of(old(self).stream(), old(x)@) == shuffled(self.stream(), x@, i as nat),
                x@.to_multiset() == old(x)@.to_multiset(),
            decreases i,
        {
            let j: usize = self.randbelow((i as u64) + 1) as usize;
            let ghost before = x@;
            exchange(x, j, i);
            proof {
                assert(swapped(before, i as int, j as int) =~= x@);
                lemma_swap_keeps_elements(before, i as int, j as int);
            }
            i -= 1;
        }
    }
}

/// Exchanges two elements of a slice.
fn exchange<T>(x: &mut [T], i: usize, j: usize)
    requires
        i <= j < old(x)@.len(),
    ensures
        final(x)@ == swapped(old(x)@, i as int, j as int),
{
    if i < j {
        let (lo, hi) = x.split_at_mut(j);
        std::mem::swap(&mut lo[i], &mut hi[0]);
    }
}

/// Exchanging two elements keeps the elements, counted with multiplicity.
pub proof fn lemma_swap_keeps_elements<T>(x: Seq<T>, i: int, j: int)
    requires
        0 <= i < x.len(),
        0 <= j < x.len(),
    ensures
        swapped(x, i, j).to_multiset() == x.to_multiset(),
{
    let y = x.update(i, x[j]);
    vstd::seq_lib::to_multiset_update(x, i, x[j]);
    vstd::seq_lib::to_multiset_update(y, j, x[i]);
    broadcast use vstd::seq_lib::group_to_multiset_ensures;

    assert(x.to_multiset().count(x[i]) > 0) by {
        assert(x.contains(x[i]));
    }
    assert(y.to_multiset().count(y[j]) > 0) by {
        assert(y.contains(y[j]));
    }
    assert(swapped(x, i, j).to_multiset() =~= x.to_multiset());
}

/// Shuffling does not look at the elements: it commutes with mapping them.
pub proof fn lemma_shuffled_map<A, B>(s: Stream, x: Seq<A>, f: spec_fn(A) -> B, i: nat)
    requires
        i < x.len() <= u64::MAX,
        rejection::is_output(s),
    ensures
        shuffled(s, x.map_values(f), i).0 == shuffled(s, x, i).0.map_values(f),
        shuffled(s, x.map_values(f), i).1 == shuffled(s, x, i).1,
        shuffled(s, x, i).0.len() == x.len(),
        rejection::is_output(shuffled(s, x, i).1),
    decreases i,
{
    if i > 0 {
        let (j, s1) = below(s, i + 1);
        lemma_below(s, i + 1);
        assert(swapped(x.map_values(f), i as int, j as int) =~= swapped(x, i as int, j as int).map_values(f));
        lemma_shuffled_map(s1, swapped(x, i as int, j as int), f, (i - 1) as nat);
    }
}

/// Shuffling all of a sequence commutes with mapping its elements.
pub proof fn lemma_shuffle_map<A, B>(s: Stream, x: Seq<A>, f: spec_fn(A) -> B)
    requires
        x.len() <= u64::MAX,
        rejection::is_output(s),
    ensures
        shuffle_of(s, x.map_values(f)).0 == shuffle_of(s, x).0.map_values(f),
        shuffle_of(s, x.map_values(f)).1 == shuffle_of(s, x).1,
{
    if x.len() >= 2 {
        lemma_shuffled_map(s, x, f, (x.len() - 1) as nat);
    }
}

/// Shuffling down from a position keeps the elements, counted with multiplicity.
proof fn lemma_shuffled_keeps_elements<T>(s: Stream, x: Seq<T>, i: nat)
    requires
        i < x.len() <= u64::MAX,
        rejection::is_output(s),
    ensures
        shuffled(s, x, i).0.to_multiset() == x.to_multiset(),
    decreases i,
{
    if i > 0 {
        let (j, s1) = below(s, i + 1);
        lemma_below(s, i + 1);
        lemma_swap_keeps_elements(x, i as int, j as int);
        lemma_shuffled_keeps_elements(s1, swapped(x, i as int, j as int), (i - 1) as nat);
    }
}

/// Shuffling keeps the elements, counted with multiplicity.
pub proof fn law_shuffle_keeps_elements<T>(s: Stream, x: Seq<T>)
    requires
        x.len() <= u64::MAX,
        rejection::is_output(s),
    ensures
        shuffle_of(s, x).0.to_multiset() == x.to_multiset(),
{
    if x.len() >= 2 {
        lemma_shuffled_keeps_elements(s, x, (x.len() - 1) as nat);
    }
}

proof fn lemma_pool_leaves_output(s: Stream, pool: Seq<usize>, live: nat, k: nat)
    requires
        k <= live <= u64::MAX,
        rejection::is_output(s),
    ensures
        rejection::is_output(pool_draws(s, pool, live, k).1),
    decreases k,
{
    if k > 0 {
        let (j, s1) = below(s, live);
        lemma_below(s, live);
        lemma_pool_leaves_output(s1, pool.update(j as int, pool[live - 1]), (live - 1) as nat, (k - 1) as nat);
    }
}

proof fn lemma_fresh_draw_leaves_output(s: Stream, n: nat, chosen: Seq<usize>, redraws: nat)
    requires
        n <= u64::MAX,
        rejection::is_output(s),
    ensures
        rejection::is_output(fresh_draw(s, n, chosen, redraws).1),
    decreases redraws,
{
    let (j, s1) = below(s, n);
    lemma_below(s, n);
    if chosen.contains(j as usize) && redraws > 0 {
        lemma_fresh_draw_leaves_output(s1, n, chosen, (redraws - 1) as nat);
    }
}

proof fn lemma_set_leaves_output(s: Stream, n: nat, chosen: Seq<usize>, k: nat)
    requires
        n <= u64::MAX,
        rejection::is_output(s),
    ensures
        rejection::is_output(set_draws(s, n, chosen, k).1),
    decreases k - chosen.len(),
{
    if chosen.len() < k {
        let (j, s1) = fresh_draw(s, n, chosen, MAX_REDRAWS as nat);
        lemma_fresh_draw_leaves_output(s, n, chosen, MAX_REDRAWS as nat);
        lemma_set_leaves_output(s1, n, chosen.push(j as usize), k);
    }
}

/// What a sample leaves of a generator's output is a generator's output.
pub proof fn lemma_sample_leaves_output(s: Stream, n: nat, k: nat)
    requires
        k <= n <= u64::MAX,
        rejection::is_output(s),
    ensures
        rejection::is_output(sample_of(s, n, k).1),
{
    if n <= set_size(k) {
        lemma_pool_leaves_output(s, index_range(n), n, k);
    } else {
        lemma_set_leaves_output(s, n, Seq::empty(), k);
    }
}

/// `n` distinct indices below `n` are all of them.
pub proof fn lemma_all_indices(p: Seq<usize>, n: nat)
    requires
        p.len() == n,
        p.no_duplicates(),
        forall|i: int| 0 <= i < p.len() ==> #[trigger] p[i] < n,
    ensures
        forall|v: usize| v < n ==> p.contains(v),
{
    assert forall|v: usize| v < n implies p.contains(v) by {
        if !p.contains(v) {
            let ints = p.map_values(|w: usize| w as int);
            let range = vstd::set_lib::set_int_range(0, n as int);
            vstd::set_lib::lemma_int_range(0, n as int);
            assert(ints.no_duplicates());
            ints.unique_seq_to_set();
            assert forall|w: int| ints.to_set().contains(w) implies range.remove(v as int).contains(w) by {
                let q = choose|q: int| 0 <= q < ints.len() && ints[q] == w;
                assert(p[q] < n);
            }
            vstd::set_lib::lemma_len_subset(ints.to_set(), range.remove(v as int));
        }
    }
}

/// Fewer than `n` indices leave one below `n` free.
proof fn lemma_some_index_free(chosen: Seq<usize>, n: nat)
    requires
        chosen.len() < n,
        n <= usize::MAX,
    ensures
        exists|v: usize| v < n && !chosen.contains(v),
{
    if forall|v: usize| v < n ==> chosen.contains(v) {
        let ints = chosen.map_values(|v: usize| v as int);
        let range = vstd::set_lib::set_int_range(0, n as int);
        vstd::set_lib::lemma_int_range(0, n as int);
        assert forall|v: int| range.contains(v) implies ints.to_set().contains(v) by {
            assert(chosen.contains(v as usize));
            let q = choose|q: int| 0 <= q < chosen.len() && chosen[q] == v as usize;
            assert(ints[q] == v);
        }
        ints.lemma_cardinality_of_set();
        vstd::set_lib::lemma_len_subset(range, ints.to_set());
    }
}

/// A number below `n` is the first draw of as many bits as `n` has that is below it; every draw before
/// it was too great, and all of them are used up.
pub proof fn law_first_draw_below(s: Stream, n: nat)
    requires
        rejection::is_output(s),
        0 < n <= u64::MAX,
    ensures
        exists|i: nat|
            {
                &&& below(s, n).0 == #[trigger] draw(s, bit_len(n), i)
                &&& draw(s, bit_len(n), i) < n
                &&& forall|j: nat| j < i ==> #[trigger] draw(s, bit_len(n), j) >= n
                &&& below(s, n).1 == mt19937::after(s, (i + 1) * mt19937::words_for(bit_len(n) as int))
            },
{
    lemma_rejected(s, n);
    let i = rejected(s, n);
    assert forall|j: nat| j < i implies #[trigger] draw(s, bit_len(n), j) >= n by {
        assert(!accepts(s, n, j));
    }
    assert(below(s, n).0 == draw(s, bit_len(n), i));
}

/// Indices are listed in order, and a swap exchanges two places and no others.
pub proof fn law_indices_and_swaps<T>(n: nat, x: Seq<T>, i: int, j: int, k: int)
    requires
        0 <= i < x.len(),
        0 <= j < x.len(),
        0 <= k < x.len(),
    ensures
        index_range(n).len() == n,
        k < n <= usize::MAX ==> index_range(n)[k] == k,
        swapped(x, i, j)[i] == x[j],
        swapped(x, i, j)[j] == x[i],
        k != i && k != j ==> swapped(x, i, j)[k] == x[k],
        swapped(x, i, j).len() == x.len(),
{
}

proof fn lemma_shuffled_above<T>(s: Stream, x: Seq<T>, i: nat, k: int)
    requires
        rejection::is_output(s),
        i < k < x.len() <= u64::MAX,
    ensures
        shuffled(s, x, i).0.len() == x.len(),
        shuffled(s, x, i).0[k] == x[k],
    decreases i,
{
    if i > 0 {
        lemma_below(s, i + 1);
        let (j, s1) = below(s, i + 1);
        lemma_shuffled_above(s1, swapped(x, i as int, j as int), (i - 1) as nat, k);
    }
}

/// A shuffle draws its last item first, out of all of them, and goes on with the others.
pub proof fn law_shuffles_draw_from_all<T>(s: Stream, x: Seq<T>)
    requires
        rejection::is_output(s),
        2 <= x.len() <= u64::MAX,
    ensures
        shuffle_of(s, x).0.len() == x.len(),
        shuffle_of(s, x).0.last() == x[below(s, x.len()).0 as int],
{
    let i = (x.len() - 1) as nat;
    lemma_below(s, i + 1);
    let (j, s1) = below(s, i + 1);
    let y = swapped(x, i as int, j as int);
    if i > 1 {
        lemma_shuffled_above(s1, y, (i - 1) as nat, i as int);
    } else {
        lemma_shuffled_above(s1, y, 0, 1);
    }
}

/// A draw from a pool takes the item in the drawn place, and moves the last live item there.
pub proof fn law_pools_are_drawn_from(s: Stream, pool: Seq<usize>, live: nat, k: nat)
    requires
        rejection::is_output(s),
        0 < k <= live <= pool.len() <= u64::MAX,
    ensures
        pool_draws(s, pool, live, k).0.len() > 0,
        pool_draws(s, pool, live, k).0[0] == pool[below(s, live).0 as int],
        pool_draws(s, pool, live, k).0.skip(1) == pool_draws(
            below(s, live).1,
            pool.update(below(s, live).0 as int, pool[live - 1]),
            (live - 1) as nat,
            (k - 1) as nat,
        ).0,
        pool_draws(s, pool, live, 0).0.len() == 0,
{
    let rest = pool_draws(
        below(s, live).1,
        pool.update(below(s, live).0 as int, pool[live - 1]),
        (live - 1) as nat,
        (k - 1) as nat,
    );
    assert((seq![pool[below(s, live).0 as int]] + rest.0).skip(1) =~= rest.0);
}

proof fn lemma_power_of_four(p: nat, m: nat)
    requires
        0 < p,
        p < 4 * m,
    ensures
        m <= power_of_four_from(p, m) < 4 * m,
    decreases (if p < m { m - p } else { 0 }),
{
    if p < m {
        lemma_power_of_four(4 * p, m);
    }
}

/// A set that is kept while drawing has 21 places, and for more than five draws as many again as the
/// first power of four that is at least three times the draws.
pub proof fn law_sets_are_sized(k: nat)
    ensures
        k <= 5 ==> set_size(k) == 21,
        k > 5 ==> 21 + 3 * k <= set_size(k) < 21 + 12 * k,
{
    if k > 5 {
        lemma_power_of_four(1, 3 * k);
    }
}

/// The first free index is not chosen, and all before it are.
pub proof fn law_first_free_index(chosen: Seq<usize>, from: nat, n: nat, i: nat)
    requires
        from <= n,
    ensures
        from <= first_free(chosen, from, n) <= n,
        first_free(chosen, from, n) < n ==> !chosen.contains(first_free(chosen, from, n) as usize),
        from <= i < first_free(chosen, from, n) ==> chosen.contains(i as usize),
    decreases n - from,
{
    if from < n && chosen.contains(from as usize) {
        law_first_free_index(chosen, from + 1, n, i);
    }
}

/// A few out of many are drawn one by one until one is new; few out of few are drawn from a pool.
pub proof fn law_how_samples_are_drawn(s: Stream, n: nat, k: nat, chosen: Seq<usize>)
    ensures
        n <= set_size(k) ==> sample_of(s, n, k) == pool_draws(s, index_range(n), n, k),
        n > set_size(k) ==> sample_of(s, n, k) == set_draws(s, n, Seq::empty(), k),
        !chosen.contains(below(s, n).0 as usize) ==> fresh_draw(s, n, chosen, MAX_REDRAWS as nat) == below(s, n),
        chosen.contains(below(s, n).0 as usize) ==> fresh_draw(s, n, chosen, MAX_REDRAWS as nat) == fresh_draw(
            below(s, n).1,
            n,
            chosen,
            (MAX_REDRAWS - 1) as nat,
        ),
        chosen.len() >= k ==> set_draws(s, n, chosen, k).0 == chosen,
        chosen.len() < k ==> set_draws(s, n, chosen, k) == set_draws(
            fresh_draw(s, n, chosen, MAX_REDRAWS as nat).1,
            n,
            chosen.push(fresh_draw(s, n, chosen, MAX_REDRAWS as nat).0 as usize),
            k,
        ),
{
}

} // verus!
