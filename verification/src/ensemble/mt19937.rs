//! The MT19937 generator, seeded and read out the way CPython's `random` module does it.
//!
//! A generator is modelled by the infinite sequence of 32-bit words it still has to hand out
//! (`Mt19937::stream`). Seeding fixes that sequence, and drawing a word removes its head.

use vstd::prelude::*;

use crate::ensemble::rejection;

verus! {

/// Number of words in the state block.
pub const N: usize = 624;

/// Distance of the middle word that the recurrence reads.
pub const M: usize = 397;

/// The recurrence's feedback constant.
pub const MATRIX_A: u32 = 0x9908_b0df;

/// The most significant bit.
pub const UPPER_MASK: u32 = 0x8000_0000;

/// All bits but the most significant one.
pub const LOWER_MASK: u32 = 0x7fff_ffff;

/// The infinite sequence of words that a generator will hand out.
pub type Stream = spec_fn(nat) -> u32;

/// `s` without its first `m` words.
pub open spec fn after(s: Stream, m: nat) -> Stream {
    |i: nat| s(i + m)
}

/// The recurrence: the word 624 places after `a`, where `b` follows `a` and `c` stands 397
/// places after `a`.
pub open spec fn twist(a: u32, b: u32, c: u32) -> u32 {
    let y: u32 = (a & UPPER_MASK) | (b & LOWER_MASK);
    c ^ (y >> 1u32) ^ (if y & 1u32 == 0u32 { 0u32 } else { MATRIX_A })
}

/// Word `t` of the raw sequence that begins with `block`.
pub open spec fn raw_word(block: Seq<u32>, t: nat) -> u32
    decreases t,
{
    if t < N {
        block[t as int]
    } else {
        twist(
            raw_word(block, (t - N) as nat),
            raw_word(block, (t - N + 1) as nat),
            raw_word(block, (t - N + M) as nat),
        )
    }
}

/// The output transformation from a raw word to the word that is handed out.
pub open spec fn temper(x: u32) -> u32 {
    let a: u32 = x ^ (x >> 11u32);
    let b: u32 = a ^ ((a << 7u32) & 0x9d2c_5680u32);
    let c: u32 = b ^ ((b << 15u32) & 0xefc6_0000u32);
    c ^ (c >> 18u32)
}

/// The word that follows `p` at position `i` while `init_genrand` fills the block.
pub open spec fn genrand_next(p: u32, i: u32) -> u32 {
    1_812_433_253u32.wrapping_mul(p ^ (p >> 30u32)).wrapping_add(i)
}

/// Word `i` of the block that `init_genrand` fills from a 32-bit seed.
pub open spec fn genrand_word(seed: u32, i: int) -> u32
    decreases i,
{
    if i <= 0 {
        seed
    } else {
        genrand_next(genrand_word(seed, i - 1), i as u32)
    }
}

/// The block that `init_genrand` fills from a 32-bit seed.
pub open spec fn genrand_block(seed: u32) -> Seq<u32> {
    Seq::new(N as nat, |i: int| genrand_word(seed, i))
}

/// What seeding by an array works on: the block, the next position in it and the next word of
/// the key.
pub struct Mixing {
    pub block: Seq<u32>,
    pub i: int,
    pub j: int,
}

/// Moves on to the next position of the block; past its end, position 1 follows, and the last
/// word is copied to the front.
pub open spec fn step_position(block: Seq<u32>, i: int) -> (Seq<u32>, int) {
    if i + 1 >= N {
        (block.update(0, block[N - 1]), 1)
    } else {
        (block, i + 1)
    }
}

/// One step of the first pass, which folds the key into the block.
pub open spec fn mix_key_step(m: Mixing, key: Seq<u32>) -> Mixing {
    let prev: u32 = m.block[m.i - 1];
    let word: u32 = (m.block[m.i] ^ (prev ^ (prev >> 30u32)).wrapping_mul(1_664_525u32))
        .wrapping_add(key[m.j]).wrapping_add(m.j as u32);
    let (block, i) = step_position(m.block.update(m.i, word), m.i);
    Mixing { block, i, j: if m.j + 1 >= key.len() { 0 } else { m.j + 1 } }
}

/// `n` steps of the first pass.
pub open spec fn mix_key(m: Mixing, key: Seq<u32>, n: nat) -> Mixing
    decreases n,
{
    if n == 0 {
        m
    } else {
        mix_key_step(mix_key(m, key, (n - 1) as nat), key)
    }
}

/// One step of the second pass, which diffuses the block.
pub open spec fn mix_block_step(m: Mixing) -> Mixing {
    let prev: u32 = m.block[m.i - 1];
    let word: u32 = (m.block[m.i] ^ (prev ^ (prev >> 30u32)).wrapping_mul(1_566_083_941u32))
        .wrapping_sub(m.i as u32);
    let (block, i) = step_position(m.block.update(m.i, word), m.i);
    Mixing { block, i, j: m.j }
}

/// `n` steps of the second pass.
pub open spec fn mix_block(m: Mixing, n: nat) -> Mixing
    decreases n,
{
    if n == 0 {
        m
    } else {
        mix_block_step(mix_block(m, (n - 1) as nat))
    }
}

/// The key that seeding really uses: an empty key stands for a single zero word.
pub open spec fn effective_key(key: Seq<u32>) -> Seq<u32> {
    if key.len() == 0 {
        seq![0u32]
    } else {
        key
    }
}

/// The block that seeding by the array `key` produces.
pub open spec fn seeded_block(key: Seq<u32>) -> Seq<u32> {
    let k = effective_key(key);
    let rounds: nat = if k.len() > N { k.len() } else { N as nat };
    let start = Mixing { block: genrand_block(19_650_218u32), i: 1, j: 0 };
    mix_block(mix_key(start, k, rounds), (N - 1) as nat).block.update(0, UPPER_MASK)
}

/// The little-endian 32-bit words of `seed`, without leading zero words.
pub open spec fn seed_words(seed: u64) -> Seq<u32>
    decreases seed,
{
    if seed == 0 {
        Seq::empty()
    } else {
        seq![(seed % 0x1_0000_0000) as u32] + seed_words(seed / 0x1_0000_0000)
    }
}

/// The words handed out by a generator whose block holds `block` and has not been read yet.
pub open spec fn fresh_stream(block: Seq<u32>) -> Stream {
    |i: nat| temper(raw_word(block, N as nat + i))
}

/// Bits `0..k` drawn from the front of `s`: none give zero, for `k <= 32` they are the top bits of
/// one word, otherwise a whole word followed by the top bits of the next one.
pub open spec fn bits_of(s: Stream, k: int) -> u64 {
    if k <= 0 {
        0
    } else if k <= 32 {
        (s(0) >> ((32 - k) as u32)) as u64
    } else {
        (s(0) as u64) | (((s(1) >> ((64 - k) as u32)) as u64) << 32u64)
    }
}

/// How many words a draw of `k` bits takes.
pub open spec fn words_for(k: int) -> nat {
    if k <= 0 {
        0
    } else if k <= 32 {
        1
    } else {
        2
    }
}

/// Reading on from a regenerated block continues the raw sequence.
proof fn lemma_raw_word_continues(block: Seq<u32>, next: Seq<u32>, t: nat)
    requires
        forall|i: int| 0 <= i < N ==> next[i] == raw_word(block, (N + i) as nat),
    ensures
        raw_word(next, t) == raw_word(block, N as nat + t),
    decreases t,
{
    if t >= N {
        lemma_raw_word_continues(block, next, (t - N) as nat);
        lemma_raw_word_continues(block, next, (t - N + 1) as nat);
        lemma_raw_word_continues(block, next, (t - N + M) as nat);
    }
}

proof fn lemma_next_raw_word(block: Seq<u32>, k: nat)
    ensures
        raw_word(block, N as nat + k) == twist(
            raw_word(block, k),
            raw_word(block, k + 1),
            raw_word(block, k + M as nat),
        ),
{
}

/// Computes the recurrence.
fn twisted(a: u32, b: u32, c: u32) -> (r: u32)
    ensures
        r == twist(a, b, c),
{
    let y: u32 = (a & UPPER_MASK) | (b & LOWER_MASK);
    let mag: u32 = if y & 1u32 == 0u32 { 0 } else { MATRIX_A };
    c ^ (y >> 1u32) ^ mag
}

/// An MT19937 generator.
pub struct Mt19937 {
    mt: [u32; 624],
    index: usize,
}

impl Mt19937 {
    /// The words that the generator will hand out.
    pub closed spec fn stream(&self) -> Stream {
        let start: nat = if self.index >= N { N as nat } else { self.index as nat };
        |i: nat| temper(raw_word(self.mt@, start + i))
    }

    fn init_genrand(seed: u32) -> (r: Self)
        ensures
            r.mt@ == genrand_block(seed),
            r.index == N,
    {
        let mut mt = [0u32; 624];
        mt[0] = seed;
        let mut i: usize = 1;
        while i < N
            invariant
                1 <= i <= N,
                forall|j: int| 0 <= j < i ==> mt@[j] == genrand_word(seed, j),
            decreases N - i,
        {
            let p: u32 = mt[i - 1];
            let next: u32 = 1_812_433_253u32.wrapping_mul(p ^ (p >> 30u32)).wrapping_add(i as u32);
            assert(genrand_word(seed, i as int) == genrand_next(genrand_word(seed, i - 1), i as u32));
            assert(next == genrand_word(seed, i as int));
            mt[i] = next;
            i += 1;
        }
        assert(mt@ =~= genrand_block(seed));
        Mt19937 { mt, index: N }
    }

    /// The generator seeded by an array of 32-bit words.
    pub fn from_seed_key(key: &[u32]) -> (r: Self)
        ensures
            r.stream() == fresh_stream(seeded_block(key@)),
    {
        let mut rng = Self::init_genrand(19_650_218);
        let mut words: Vec<u32> = Vec::new();
        if key.len() == 0 {
            words.push(0);
        } else {
            words.extend_from_slice(key);
        }
        assert(words@ =~= effective_key(key@));
        let key_length: usize = words.len();
        let rounds: usize = if key_length > N { key_length } else { N };
        let ghost k = effective_key(key@);
        let ghost start = Mixing { block: genrand_block(19_650_218u32), i: 1, j: 0 };
        let mut i: usize = 1;
        let mut j: usize = 0;
        let mut done: usize = 0;
        while done < rounds
            invariant
                1 <= i < N,
                0 <= j < key_length,
                done <= rounds,
                words@ == k,
                key_length == k.len(),
                rng.index == N,
                mix_key(start, k, done as nat) == (Mixing { block: rng.mt@, i: i as int, j: j as int }),
            decreases rounds - done,
        {
            let prev: u32 = rng.mt[i - 1];
            let word: u32 = (rng.mt[i] ^ (prev ^ (prev >> 30u32)).wrapping_mul(1_664_525))
                .wrapping_add(words[j]).wrapping_add(j as u32);
            rng.mt[i] = word;
            i += 1;
            j += 1;
            if i >= N {
                rng.mt[0] = rng.mt[N - 1];
                i = 1;
            }
            if j >= key_length {
                j = 0;
            }
            done += 1;
        }
        let ghost mixed = mix_key(start, k, rounds as nat);
        let mut left: usize = 0;
        while left < N - 1
            invariant
                1 <= i < N,
                left <= N - 1,
                rng.index == N,
                mix_block(mixed, left as nat) == (Mixing { block: rng.mt@, i: i as int, j: mixed.j }),
            decreases N - left,
        {
            let prev: u32 = rng.mt[i - 1];
            let word: u32 = (rng.mt[i] ^ (prev ^ (prev >> 30u32)).wrapping_mul(1_566_083_941))
                .wrapping_sub(i as u32);
            rng.mt[i] = word;
            i += 1;
            if i >= N {
                rng.mt[0] = rng.mt[N - 1];
                i = 1;
            }
            left += 1;
        }
        rng.mt[0] = UPPER_MASK;
        assert(rng.mt@ =~= seeded_block(key@));
        assert(rng.stream() =~= fresh_stream(seeded_block(key@)));
        rng
    }

    /// The generator seeded by a non-negative integer: its 32-bit words, least significant
    /// first, are the key.
    pub fn from_u64_seed(seed: u64) -> (r: Self)
        ensures
            r.stream() == fresh_stream(seeded_block(seed_words(seed))),
    {
        let mut key: Vec<u32> = Vec::new();
        let mut s: u64 = seed;
        while s > 0
            invariant
                key@ + seed_words(s) == seed_words(seed),
                s <= 0xffff_ffff || key@.len() == 0,
                key@.len() <= 1 || s == 0,
                key@.len() <= 2,
            decreases s,
        {
            let ghost before = key@;
            key.push((s & 0xffff_ffff) as u32);
            proof {
                assert(s & 0xffff_ffff == s % 0x1_0000_0000) by (bit_vector);
                assert(s >> 32u64 == s / 0x1_0000_0000) by (bit_vector);
                assert(key@ + seed_words(s / 0x1_0000_0000) =~= before + seed_words(s));
            }
            s = s >> 32u64;
        }
        assert(key@ =~= seed_words(seed));
        Self::from_seed_key(key.as_slice())
    }

    fn regenerate(&mut self)
        ensures
            forall|i: int| 0 <= i < N ==> final(self).mt@[i] == raw_word(old(self).mt@, (N + i) as nat),
            final(self).index == 0,
    {
        let ghost block = self.mt@;
        let mut kk: usize = 0;
        while kk < N - M
            invariant
                kk <= N - M,
                block == old(self).mt@,
                forall|i: int| 0 <= i < kk ==> self.mt@[i] == raw_word(block, (N + i) as nat),
                forall|i: int| kk <= i < N ==> self.mt@[i] == block[i],
            decreases N - kk,
        {
            proof {
                lemma_next_raw_word(block, kk as nat);
            }
            self.mt[kk] = twisted(self.mt[kk], self.mt[kk + 1], self.mt[kk + M]);
            kk += 1;
        }
        while kk < N - 1
            invariant
                N - M <= kk <= N - 1,
                block == old(self).mt@,
                forall|i: int| 0 <= i < kk ==> self.mt@[i] == raw_word(block, (N + i) as nat),
                forall|i: int| kk <= i < N ==> self.mt@[i] == block[i],
            decreases N - kk,
        {
            proof {
                lemma_next_raw_word(block, kk as nat);
            }
            self.mt[kk] = twisted(self.mt[kk], self.mt[kk + 1], self.mt[kk + M - N]);
            kk += 1;
        }
        proof {
            lemma_next_raw_word(block, (N - 1) as nat);
        }
        self.mt[N - 1] = twisted(self.mt[N - 1], self.mt[0], self.mt[M - 1]);
        self.index = 0;
    }

    /// Draws the next word.
    pub fn next_u32(&mut self) -> (r: u32)
        ensures
            r == old(self).stream()(0),
            final(self).stream() == after(old(self).stream(), 1),
    {
        let ghost s = self.stream();
        if self.index >= N {
            let ghost block = self.mt@;
            self.regenerate();
            proof {
                assert forall|i: nat| #[trigger] self.stream()(i) == s(i) by {
                    lemma_raw_word_continues(block, self.mt@, i);
                }
                assert(self.stream() =~= s);
            }
        }
        let x: u32 = self.mt[self.index];
        self.index += 1;
        let a: u32 = x ^ (x >> 11u32);
        let b: u32 = a ^ ((a << 7u32) & 0x9d2c_5680);
        let c: u32 = b ^ ((b << 15u32) & 0xefc6_0000);
        assert(self.stream() =~= after(s, 1));
        c ^ (c >> 18u32)
    }

    /// Draws `k` bits: words are taken least significant first, 32 bits at a time, and of the
    /// last one only the top bits. A draw of no bits is zero and takes no word.
    pub fn getrandbits(&mut self, k: u32) -> (r: u64)
        requires
            k <= 64,
        ensures
            r == bits_of(old(self).stream(), k as int),
            final(self).stream() == after(old(self).stream(), words_for(k as int)),
    {
        let ghost s = self.stream();
        if k == 0 {
            assert(after(s, 0) =~= s);
            return 0;
        }
        if k <= 32 {
            return (self.next_u32() >> (32 - k)) as u64;
        }
        let low: u32 = self.next_u32();
        let high: u32 = self.next_u32() >> (64 - k);
        assert(after(after(s, 1), 1) =~= after(s, 2));
        (low as u64) | ((high as u64) << 32u64)
    }

    /// What a generator hands out always comes from a raw MT19937 sequence.
    pub proof fn lemma_stream_is_output(&self)
        ensures
            rejection::is_output(self.stream()),
    {
        let start: nat = if self.index >= N { N as nat } else { self.index as nat };
        let block = self.mt@;
        let x: Stream = |i: nat| raw_word(block, start + i);
        assert forall|t: nat| #[trigger] x(t + N as nat) == twist(x(t), x(t + 1), x(t + M as nat)) by {
            lemma_next_raw_word(block, start + t);
        }
        assert(rejection::recurrent(x));
        assert forall|i: nat| #[trigger] self.stream()(i) == temper(x(i)) by {}
    }
}

/// What a fresh generator hands out is the output of a raw sequence.
pub proof fn lemma_fresh_is_output(block: Seq<u32>)
    ensures
        rejection::is_output(fresh_stream(block)),
{
    let x: Stream = |i: nat| raw_word(block, N as nat + i);
    assert forall|t: nat| #[trigger] x(t + N as nat) == twist(x(t), x(t + 1), x(t + M as nat)) by {
        lemma_next_raw_word(block, N as nat + t);
    }
    assert(rejection::recurrent(x));
    assert forall|i: nat| #[trigger] fresh_stream(block)(i) == temper(x(i)) by {}
}

/// Up to 32 bits are the first bits of a word, and more are a word with the first bits of the next one
/// above it.
pub proof fn law_bits_of_words(s: Stream, k: int)
    ensures
        k <= 0 ==> bits_of(s, k) == 0 && words_for(k) == 0,
        1 <= k <= 32 ==> bits_of(s, k) == s(0) as nat / vstd::arithmetic::power2::pow2((32 - k) as nat) && words_for(k) == 1,
        33 <= k <= 64 ==> bits_of(s, k) == s(0) + 0x1_0000_0000 * (s(1) as nat / vstd::arithmetic::power2::pow2(
            (64 - k) as nat,
        )) && words_for(k) == 2,
{
    if 1 <= k <= 32 {
        if k == 1 {
            let w = s(0);
            assert(w >> 31u32 == w / 0x8000_0000u32) by (bit_vector);
            vstd::arithmetic::power2::lemma2_to64();
        }
        vstd::bits::lemma_u32_shr_is_div(s(0), (32 - k) as u32);
    } else if 33 <= k <= 64 {
        vstd::bits::lemma_u32_shr_is_div(s(1), (64 - k) as u32);
        let a = s(0) as u64;
        let b = (s(1) >> ((64 - k) as u32)) as u64;
        assert(a | (b << 32u64) == a + 0x1_0000_0000 * b) by (bit_vector)
            requires
                a <= 0xffff_ffff,
                b <= 0xffff_ffff,
        ;
    }
}

/// A seed's words, the low one first, without zeros above; an empty key is that of a zero.
pub proof fn law_words_of_seeds(seed: u64, key: Seq<u32>)
    ensures
        seed_words(0) == Seq::<u32>::empty(),
        0 < seed < 0x1_0000_0000 ==> seed_words(seed) == seq![seed as u32],
        seed >= 0x1_0000_0000 ==> seed_words(seed) == seq![
            (seed % 0x1_0000_0000) as u32,
            (seed / 0x1_0000_0000) as u32,
        ],
        effective_key(Seq::empty()) == seq![0u32],
        key.len() > 0 ==> effective_key(key) == key,
{
    reveal_with_fuel(seed_words, 4);
    if seed > 0 {
        assert(seed_words(0) =~= Seq::<u32>::empty());
        if seed < 0x1_0000_0000 {
            assert(seed / 0x1_0000_0000 == 0 && seed % 0x1_0000_0000 == seed);
            assert(seed_words(seed) =~= seq![seed as u32]);
        } else {
            let h = seed / 0x1_0000_0000;
            assert(h / 0x1_0000_0000 == 0 && h % 0x1_0000_0000 == h && h > 0);
            assert(seed_words(h) =~= seq![h as u32]);
            assert(seed_words(seed) =~= seq![(seed % 0x1_0000_0000) as u32, h as u32]);
        }
    }
}

/// A stream goes on where as many words were taken.
pub proof fn law_streams_go_on(s: Stream, m: nat, i: nat)
    ensures
        after(s, m)(i) == s(i + m),
{
}

/// The words of a block come first, and each further word is made of the ones 624, 623 and 227 places
/// before it.
pub proof fn law_words_recur(block: Seq<u32>, t: nat)
    ensures
        t < 624 ==> raw_word(block, t) == block[t as int],
        raw_word(block, t + 624) == twist(raw_word(block, t), raw_word(block, t + 1), raw_word(block, t + 397)),
        fresh_stream(block)(t) == temper(raw_word(block, t + 624)),
        UPPER_MASK == 0x8000_0000 && LOWER_MASK == 0x7fff_ffff && MATRIX_A == 0x9908_b0df,
{
}

/// A word is made of the first bit of one word and the other bits of the next: shifted by one place,
/// combined with a third word, and with the matrix where the last bit was set.
pub proof fn law_words_are_twisted(a: u32, b: u32, c: u32)
    ensures
        b % 2 == 0 ==> twist(a, b, c) == c ^ (((a & 0x8000_0000u32) | (b & 0x7fff_ffffu32)) >> 1u32),
        b % 2 == 1 ==> twist(a, b, c) == c ^ (((a & 0x8000_0000u32) | (b & 0x7fff_ffffu32)) >> 1u32) ^ 0x9908_b0dfu32,
{
    let y = (a & 0x8000_0000u32) | (b & 0x7fff_ffffu32);
    assert(y & 1u32 == b % 2) by (bit_vector)
        requires
            y == (a & 0x8000_0000u32) | (b & 0x7fff_ffffu32),
    ;
    let z = c ^ (y >> 1u32);
    assert(z ^ 0u32 == z) by (bit_vector);
}

/// A block grown from one word starts with it, and each word follows from the one before.
pub proof fn law_blocks_grow(seed: u32, i: int)
    requires
        0 < i < 624,
    ensures
        genrand_block(seed).len() == 624,
        genrand_block(seed)[0] == seed,
        genrand_block(seed)[i] == genrand_next(genrand_block(seed)[i - 1], i as u32),
{
}

} // verus!
