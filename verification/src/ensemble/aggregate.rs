//! Putting the members' outputs together.

use vstd::arithmetic::div_mod;
use vstd::prelude::*;

verus! {

/// The label that a member sees in place of a class.
pub open spec fn shifted(c: int, shift: int, n_classes: int) -> int {
    (c + shift) % n_classes
}

/// A member's outputs by class, where it gives them by the label that it saw.
pub open spec fn unshifted<T>(logits: Seq<T>, shift: int, n_classes: int) -> Seq<T> {
    Seq::new(n_classes as nat, |c: int| logits[shifted(c, shift, n_classes)])
}

/// Outputs by class, as a member gives them by the label that it saw.
pub open spec fn by_label<T>(logits: Seq<T>, shift: int, n_classes: int) -> Seq<T> {
    Seq::new(n_classes as nat, |p: int| logits[(p - shift) % n_classes])
}

/// Undoing a shift gives the outputs by class back.
pub proof fn law_unshift_undoes_shift<T>(logits: Seq<T>, shift: int, n_classes: int)
    requires
        0 < n_classes,
        logits.len() == n_classes,
    ensures
        unshifted(by_label(logits, shift, n_classes), shift, n_classes) == logits,
{
    let back = unshifted(by_label(logits, shift, n_classes), shift, n_classes);
    assert forall|c: int| 0 <= c < n_classes implies back[c] == logits[c] by {
        let p = shifted(c, shift, n_classes);
        div_mod::lemma_mod_bound(c + shift, n_classes);
        div_mod::lemma_sub_mod_noop(c + shift, shift, n_classes);
        div_mod::lemma_sub_mod_noop(p, shift, n_classes);
        div_mod::lemma_mod_twice(c + shift, n_classes);
        assert((p - shift) % n_classes == (c + shift - shift) % n_classes);
        div_mod::lemma_small_mod(c as nat, n_classes as nat);
    }
    assert(back =~= logits);
}

/// Different classes are seen as different labels.
pub proof fn law_shift_keeps_classes_apart(a: int, b: int, shift: int, n_classes: int)
    requires
        0 <= a < n_classes,
        0 <= b < n_classes,
        shifted(a, shift, n_classes) == shifted(b, shift, n_classes),
    ensures
        a == b,
{
    div_mod::lemma_sub_mod_noop(a + shift, shift, n_classes);
    div_mod::lemma_sub_mod_noop(b + shift, shift, n_classes);
    div_mod::lemma_small_mod(a as nat, n_classes as nat);
    div_mod::lemma_small_mod(b as nat, n_classes as nat);
}

/// The place of a class among a member's outputs.
pub fn shifted_place(c: usize, shift: usize, n_classes: usize) -> (r: usize)
    requires
        0 < n_classes,
    ensures
        r == shifted(c as int, shift as int, n_classes as int),
        r < n_classes,
{
    ((c as u128 + shift as u128) % (n_classes as u128)) as usize
}

/// A member's outputs by class, where it gives them by the label that it saw.
pub fn unshift_logits<T: Copy>(logits: &[T], shift: usize, n_classes: usize) -> (r: Vec<T>)
    requires
        n_classes <= logits@.len(),
    ensures
        r@ == unshifted(logits@, shift as int, n_classes as int),
{
    let mut out: Vec<T> = Vec::new();
    let mut c: usize = 0;
    while c < n_classes
        invariant
            c <= n_classes <= logits@.len(),
            out@.len() == c,
            forall|q: int|
                0 <= q < c ==> #[trigger] out@[q] == logits@[shifted(q, shift as int, n_classes as int)],
        decreases n_classes - c,
    {
        out.push(logits[shifted_place(c, shift, n_classes)]);
        c += 1;
    }
    assert(out@ =~= unshifted(logits@, shift as int, n_classes as int));
    out
}

/// How the members' outputs make up the probabilities of the classes.
#[derive(Debug)]
pub enum ClassAggMode {
    /// The members' probabilities, weighted; weights are the bits of doubles.
    NnlsWeighted(Vec<u64>),
    /// The probabilities of the mean outputs.
    AverageLogits,
    /// The mean of the members' probabilities.
    AverageProbs,
}

/// How the members' outputs make up the probabilities: by weights where there are any.
pub fn class_agg_mode(average_logits: bool, weights: Option<Vec<u64>>) -> (r: ClassAggMode)
    ensures
        r == (match weights {
            Some(w) => ClassAggMode::NnlsWeighted(w),
            None => if average_logits {
                ClassAggMode::AverageLogits
            } else {
                ClassAggMode::AverageProbs
            },
        }),
{
    match weights {
        Some(w) => ClassAggMode::NnlsWeighted(w),
        None => if average_logits {
            ClassAggMode::AverageLogits
        } else {
            ClassAggMode::AverageProbs
        },
    }
}

/// A class moves up by the shift, and from the last place on to the first.
pub proof fn law_classes_turn<T>(logits: Seq<T>, c: int, shift: int, n_classes: int)
    requires
        0 <= c < n_classes,
        0 <= shift < n_classes,
    ensures
        c + shift < n_classes ==> shifted(c, shift, n_classes) == c + shift,
        c + shift >= n_classes ==> shifted(c, shift, n_classes) == c + shift - n_classes,
        unshifted(logits, shift, n_classes).len() == n_classes,
        c + shift < n_classes ==> unshifted(logits, shift, n_classes)[c] == logits[c + shift],
        c + shift >= n_classes ==> unshifted(logits, shift, n_classes)[c] == logits[c + shift - n_classes],
{
    if c + shift < n_classes {
        vstd::arithmetic::div_mod::lemma_small_mod((c + shift) as nat, n_classes as nat);
    } else {
        vstd::arithmetic::div_mod::lemma_small_mod((c + shift - n_classes) as nat, n_classes as nat);
        vstd::arithmetic::div_mod::lemma_mod_add_multiples_vanish(c + shift - n_classes, n_classes);
    }
}

} // verus!
