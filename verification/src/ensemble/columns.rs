//! The columns of a non-negative least-squares problem.
//!
//! Every column is either active, with a weight of zero, or passive, with a weight that is solved for.
//! A step makes the most promising active column passive; columns whose weight comes out too small
//! become active again.

use vstd::prelude::*;

use crate::float_bits;

verus! {

/// The bits of the weight below which a column is active, one ten-thousand-millionth.
pub const TOLERANCE: u64 = 0x3ddb_7cdf_d9d7_bdbb;

/// Which columns are active and which are passive, each in the order in which it came.
#[derive(Debug)]
pub struct ColumnSets {
    active: Vec<usize>,
    passive: Vec<usize>,
}

/// Place `i` is the last of the greatest numbers.
pub open spec fn last_greatest(w: Seq<u64>, i: int) -> bool {
    &&& 0 <= i < w.len()
    &&& forall|j: int| 0 <= j < w.len() ==> !float_bits::greater(#[trigger] w[j], w[i])
    &&& forall|j: int| i < j < w.len() ==> float_bits::greater(w[i], #[trigger] w[j])
}

/// The columns that stay passive.
pub open spec fn large(columns: Seq<usize>, small: Seq<bool>, n: nat) -> Seq<usize>
    decreases n,
{
    if n == 0 {
        Seq::empty()
    } else if small[n - 1] {
        large(columns, small, (n - 1) as nat)
    } else {
        large(columns, small, (n - 1) as nat).push(columns[n - 1])
    }
}

/// The columns that become active.
pub open spec fn small_ones(columns: Seq<usize>, small: Seq<bool>, n: nat) -> Seq<usize>
    decreases n,
{
    if n == 0 {
        Seq::empty()
    } else if small[n - 1] {
        small_ones(columns, small, (n - 1) as nat).push(columns[n - 1])
    } else {
        small_ones(columns, small, (n - 1) as nat)
    }
}

impl ColumnSets {
    /// The active columns.
    pub closed spec fn active(&self) -> Seq<usize> {
        self.active@
    }

    /// The passive columns.
    pub closed spec fn passive(&self) -> Seq<usize> {
        self.passive@
    }

    /// Whether every one of `n` columns is in one of the sets, once.
    pub open spec fn splits(&self, n: nat) -> bool {
        (self.active() + self.passive()).to_multiset() == Seq::new(n, |i: int| i as usize).to_multiset()
    }

    /// All columns are active.
    pub fn new(n: usize) -> (r: Self)
        ensures
            r.active() == Seq::new(n as nat, |i: int| i as usize),
            r.passive() == Seq::<usize>::empty(),
            r.splits(n as nat),
    {
        let mut active: Vec<usize> = Vec::new();
        let mut i: usize = 0;
        while i < n
            invariant
                i <= n,
                active@ == Seq::new(i as nat, |q: int| q as usize),
            decreases n - i,
        {
            active.push(i);
            i += 1;
            assert(active@ =~= Seq::new(i as nat, |q: int| q as usize));
        }
        let r = ColumnSets { active, passive: Vec::new() };
        assert(r.active() + r.passive() =~= r.active());
        r
    }

    /// The number of active columns.
    pub fn active_len(&self) -> (r: usize)
        ensures
            r == self.active().len(),
    {
        self.active.len()
    }

    /// The active column at a place.
    pub fn active_at(&self, i: usize) -> (r: usize)
        requires
            i < self.active().len(),
        ensures
            r == self.active()[i as int],
    {
        self.active[i]
    }

    /// The number of passive columns.
    pub fn passive_len(&self) -> (r: usize)
        ensures
            r == self.passive().len(),
    {
        self.passive.len()
    }

    /// The passive column at a place.
    pub fn passive_at(&self, i: usize) -> (r: usize)
        requires
            i < self.passive().len(),
        ensures
            r == self.passive()[i as int],
    {
        self.passive[i]
    }

    /// The place of the active column that promises most, given what each promises: the last of the
    /// greatest ones, if that is above the tolerance. No promise may be other than a number.
    pub fn most_promising(&self, w: &[u64]) -> (r: Option<usize>)
        requires
            w@.len() == self.active().len(),
            forall|i: int| 0 <= i < w@.len() ==> !float_bits::nan(#[trigger] w@[i]),
        ensures
            match r {
                Some(i) => last_greatest(w@, i as int) && float_bits::greater(w@[i as int], TOLERANCE),
                None => forall|i: int| #[trigger] last_greatest(w@, i) ==> !float_bits::greater(w@[i], TOLERANCE),
            },
    {
        if w.len() == 0 {
            return None;
        }
        let mut best: usize = 0;
        let mut i: usize = 1;
        while i < w.len()
            invariant
                best < i <= w@.len(),
                forall|j: int| 0 <= j < w@.len() ==> !float_bits::nan(#[trigger] w@[j]),
                forall|j: int| 0 <= j < i ==> !float_bits::greater(#[trigger] w@[j], w@[best as int]),
                forall|j: int| best < j < i ==> float_bits::greater(w@[best as int], #[trigger] w@[j]),
            decreases w@.len() - i,
        {
            assert(!float_bits::nan(w@[i as int]) && !float_bits::nan(w@[best as int]));
            if !float_bits::is_greater(w[best], w[i]) {
                assert forall|j: int| 0 <= j < i + 1 implies !float_bits::greater(#[trigger] w@[j], w@[i as int]) by {
                    if j < i {
                        assert(!float_bits::greater(w@[j], w@[best as int]));
                    }
                }
                best = i;
            }
            i += 1;
        }
        if float_bits::is_greater(w[best], TOLERANCE) {
            Some(best)
        } else {
            assert forall|k: int| #[trigger] last_greatest(w@, k) implies !float_bits::greater(w@[k], TOLERANCE) by {
                assert(!float_bits::greater(w@[k], w@[best as int]));
                assert(!float_bits::greater(w@[best as int], w@[k]));
                assert(!float_bits::nan(w@[k]));
            }
            None
        }
    }

    /// Makes the active column at a place passive.
    pub fn enter(&mut self, i: usize) -> (r: usize)
        requires
            i < old(self).active().len(),
        ensures
            r == old(self).active()[i as int],
            final(self).active() == old(self).active().remove(i as int),
            final(self).passive() == old(self).passive().push(r),
            forall|n: nat| old(self).splits(n) ==> final(self).splits(n),
    {
        let c: usize = self.active.remove(i);
        self.passive.push(c);
        proof {
            let a = old(self).active();
            let p = old(self).passive();
            let before = a + p;
            let after = self.active() + self.passive();
            broadcast use vstd::seq_lib::group_to_multiset_ensures;

            let front = a.take(i as int);
            let back = a.skip(i + 1);
            assert(a =~= front + seq![c] + back);
            assert(self.active() =~= front + back);
            vstd::seq_lib::lemma_multiset_commutative(a, p);
            vstd::seq_lib::lemma_multiset_commutative(front + seq![c], back);
            vstd::seq_lib::lemma_multiset_commutative(front, seq![c]);
            vstd::seq_lib::lemma_multiset_commutative(front, back);
            vstd::seq_lib::lemma_multiset_commutative(self.active(), self.passive());
            vstd::seq_lib::lemma_multiset_commutative(p, seq![c]);
            assert(self.passive() =~= p + seq![c]);
            assert(after.to_multiset() =~= before.to_multiset());
        }
        c
    }

    /// Makes the passive columns that are marked active, and gives them.
    pub fn retire(&mut self, small: &[bool]) -> (r: Vec<usize>)
        requires
            small@.len() == old(self).passive().len(),
        ensures
            r@ == small_ones(old(self).passive(), small@, small@.len()),
            final(self).active() == old(self).active() + r@,
            final(self).passive() == large(old(self).passive(), small@, small@.len()),
            forall|n: nat| old(self).splits(n) ==> final(self).splits(n),
    {
        let mut kept: Vec<usize> = Vec::new();
        let mut gone: Vec<usize> = Vec::new();
        let mut i: usize = 0;
        while i < small.len()
            invariant
                i <= small@.len() == self.passive@.len(),
                kept@ == large(self.passive@, small@, i as nat),
                gone@ == small_ones(self.passive@, small@, i as nat),
                self.active@ == old(self).active@ + gone@,
                self.passive@ == old(self).passive@,
            decreases small@.len() - i,
        {
            let c: usize = self.passive[i];
            if small[i] {
                gone.push(c);
                self.active.push(c);
                assert(self.active@ =~= old(self).active@ + gone@);
            } else {
                kept.push(c);
            }
            i += 1;
        }
        proof {
            lemma_parted(old(self).passive(), small@, small@.len());
            let p = old(self).passive();
            assert(p.take(small@.len() as int) =~= p);
            let a = old(self).active();
            vstd::seq_lib::lemma_multiset_commutative(a, p);
            vstd::seq_lib::lemma_multiset_commutative(a, gone@);
            vstd::seq_lib::lemma_multiset_commutative(a + gone@, kept@);
            vstd::seq_lib::lemma_multiset_commutative(gone@, kept@);
            assert((a + gone@ + kept@).to_multiset() =~= (a + p).to_multiset());
        }
        self.passive = kept;
        gone
    }
}

proof fn lemma_parted(columns: Seq<usize>, small: Seq<bool>, n: nat)
    requires
        n <= columns.len(),
        n <= small.len(),
    ensures
        (small_ones(columns, small, n) + large(columns, small, n)).to_multiset() == columns.take(n as int).to_multiset(),
    decreases n,
{
    if n == 0 {
        assert(small_ones(columns, small, 0) + large(columns, small, 0) =~= columns.take(0));
    } else {
        lemma_parted(columns, small, (n - 1) as nat);
        broadcast use vstd::seq_lib::group_to_multiset_ensures;

        let c = columns[n - 1];
        let s = small_ones(columns, small, (n - 1) as nat);
        let l = large(columns, small, (n - 1) as nat);
        assert(columns.take(n as int) =~= columns.take(n - 1).push(c));
        vstd::seq_lib::lemma_multiset_commutative(s, l);
        vstd::seq_lib::lemma_multiset_commutative(s.push(c), l);
        vstd::seq_lib::lemma_multiset_commutative(s, l.push(c));
        assert((small_ones(columns, small, n) + large(columns, small, n)).to_multiset() =~= columns.take(
            n as int,
        ).to_multiset());
    }
}

/// Each column in turn stays where it is not small, and goes where it is; none is in both or neither.
pub proof fn law_columns_are_parted(columns: Seq<usize>, small: Seq<bool>, n: nat)
    requires
        n < columns.len(),
        n < small.len(),
    ensures
        large(columns, small, 0).len() == 0,
        small_ones(columns, small, 0).len() == 0,
        small[n as int] ==> large(columns, small, n + 1) == large(columns, small, n) && small_ones(
            columns,
            small,
            n + 1,
        ) == small_ones(columns, small, n).push(columns[n as int]),
        !small[n as int] ==> large(columns, small, n + 1) == large(columns, small, n).push(columns[n as int])
            && small_ones(columns, small, n + 1) == small_ones(columns, small, n),
{
}

/// The last of the greatest is as great as any, and greater than all after it; only one place is.
pub proof fn law_last_greatest_is_one(w: Seq<u64>, i: int, j: int)
    requires
        last_greatest(w, i),
    ensures
        0 <= j < w.len() ==> !float_bits::greater(w[j], w[i]),
        i < j < w.len() ==> float_bits::greater(w[i], w[j]),
        last_greatest(w, j) ==> i == j,
        TOLERANCE == 0x3ddb_7cdf_d9d7_bdbb,
{
    if last_greatest(w, j) && i != j {
        assert(!float_bits::greater(w[i], w[j]) && !float_bits::greater(w[j], w[i]));
        if i < j {
            assert(float_bits::greater(w[i], w[j]));
        } else {
            assert(float_bits::greater(w[j], w[i]));
        }
    }
}

} // verus!
