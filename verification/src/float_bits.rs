//! Comparing 64-bit floating-point numbers by their bit patterns.
//!
//! A number is held as its IEEE-754 binary64 bits. Read as sign and magnitude, the bits of two
//! numbers that are not NaN compare as the numbers do, and the total order of IEEE-754 ranks
//! every pattern.

use vstd::prelude::*;

verus! {

/// The sign bit.
pub const SIGN: u64 = 0x8000_0000_0000_0000;

/// The bits of positive infinity.
pub const INFINITY: u64 = 0x7ff0_0000_0000_0000;

/// The bits of negative infinity.
pub const NEG_INFINITY: u64 = 0xfff0_0000_0000_0000;

/// The bits of a NaN.
pub const NAN: u64 = 0x7ff8_0000_0000_0000;

/// The bits without the sign.
pub open spec fn magnitude(b: u64) -> int {
    if b < SIGN {
        b as int
    } else {
        b - SIGN
    }
}

/// Whether the bits are those of a NaN.
pub open spec fn nan(b: u64) -> bool {
    magnitude(b) > INFINITY
}

/// Whether the bits are those of a finite number.
pub open spec fn finite(b: u64) -> bool {
    magnitude(b) < INFINITY
}

/// The place of a number that is not NaN among all of them; both zeros have the same place.
pub open spec fn value_rank(b: u64) -> int {
    if b < SIGN {
        b as int
    } else {
        -(b - SIGN)
    }
}

/// The place of a pattern in the total order: negative NaNs, negative numbers, negative zero,
/// zero, positive numbers, positive NaNs.
pub open spec fn total_rank(b: u64) -> int {
    if b < SIGN {
        b as int
    } else {
        -(b - SIGN) - 1
    }
}

/// Whether `a > b` as numbers; a NaN compares with nothing.
pub open spec fn greater(a: u64, b: u64) -> bool {
    !nan(a) && !nan(b) && value_rank(a) > value_rank(b)
}

/// The total order separates all patterns.
pub proof fn law_total_order_separates(a: u64, b: u64)
    requires
        total_rank(a) == total_rank(b),
    ensures
        a == b,
{
}

/// The total order agrees with the order of numbers.
pub proof fn law_total_order_agrees(a: u64, b: u64)
    requires
        greater(a, b),
    ensures
        total_rank(a) > total_rank(b),
{
}

/// Whether the bits are those of a NaN.
pub fn is_nan(b: u64) -> (r: bool)
    ensures
        r == nan(b),
{
    let m: u64 = if b < SIGN { b } else { b - SIGN };
    m > INFINITY
}

/// Whether the bits are those of a finite number.
pub fn is_finite(b: u64) -> (r: bool)
    ensures
        r == finite(b),
{
    let m: u64 = if b < SIGN { b } else { b - SIGN };
    m < INFINITY
}

/// Whether `a` comes before `b` in the total order.
pub fn total_less(a: u64, b: u64) -> (r: bool)
    ensures
        r == (total_rank(a) < total_rank(b)),
{
    if a < SIGN {
        b < SIGN && a < b
    } else {
        b < SIGN || a > b
    }
}

/// Whether `a > b` as numbers; a NaN compares with nothing.
pub fn is_greater(a: u64, b: u64) -> (r: bool)
    ensures
        r == greater(a, b),
{
    if is_nan(a) || is_nan(b) {
        return false;
    }
    if a < SIGN {
        if b < SIGN {
            a > b
        } else {
            a > 0 || b > SIGN
        }
    } else {
        b >= SIGN && b > a
    }
}

/// Whether `a <= b` as numbers; a NaN compares with nothing.
pub open spec fn at_most(a: u64, b: u64) -> bool {
    !nan(a) && !nan(b) && value_rank(a) <= value_rank(b)
}

/// Whether `a == b` as numbers; a NaN equals nothing.
pub open spec fn equal(a: u64, b: u64) -> bool {
    at_most(a, b) && at_most(b, a)
}

/// Whether `a <= b` as numbers; a NaN compares with nothing.
pub fn is_at_most(a: u64, b: u64) -> (r: bool)
    ensures
        r == at_most(a, b),
{
    !is_nan(a) && !is_nan(b) && !is_greater(a, b)
}

/// Whether `a == b` as numbers; a NaN equals nothing.
pub fn is_equal(a: u64, b: u64) -> (r: bool)
    ensures
        r == equal(a, b),
{
    is_at_most(a, b) && is_at_most(b, a)
}

/// Whether entry `x` of `keys` comes before entry `y` in a stable sort by the total order.
pub open spec fn sorts_before(keys: Seq<u64>, x: int, y: int) -> bool {
    total_rank(keys[x]) < total_rank(keys[y]) || (total_rank(keys[x]) == total_rank(keys[y]) && x < y)
}

/// Whether `order` lists the places of `keys` as a stable sort by the total order does.
pub open spec fn is_stable_order(order: Seq<usize>, keys: Seq<u64>) -> bool {
    &&& order.len() == keys.len()
    &&& order.no_duplicates()
    &&& forall|i: int| 0 <= i < order.len() ==> #[trigger] order[i] < keys.len()
    &&& forall|i: int, j: int|
        0 <= i < j < order.len() ==> sorts_before(keys, #[trigger] order[i] as int, #[trigger] order[j] as int)
}

/// The places of `keys` in the order of a stable sort by the total order.
pub fn stable_order(keys: &[u64]) -> (order: Vec<usize>)
    ensures
        is_stable_order(order@, keys@),
{
    let mut order: Vec<usize> = Vec::new();
    let mut i: usize = 0;
    while i < keys.len()
        invariant
            i <= keys@.len(),
            order@.len() == i,
            order@.no_duplicates(),
            forall|q: int| 0 <= q < i ==> #[trigger] order@[q] < i,
            forall|p: int, q: int|
                0 <= p < q < i ==> sorts_before(
                    keys@,
                    #[trigger] order@[p] as int,
                    #[trigger] order@[q] as int,
                ),
        decreases keys@.len() - i,
    {
        let mut at: usize = i;
        while at > 0 && total_less(keys[i], keys[order[at - 1]])
            invariant
                at <= i < keys@.len(),
                order@.len() == i,
                forall|q: int| 0 <= q < i ==> #[trigger] order@[q] < i,
                forall|q: int| at <= q < i ==> total_rank(keys@[i as int]) < total_rank(keys@[#[trigger] order@[q] as int]),
            decreases at,
        {
            at -= 1;
        }
        let ghost before = order@;
        order.insert(at, i);
        proof {
            assert(order@ == before.insert(at as int, i));
            assert forall|q: int| 0 <= q < order@.len() implies #[trigger] order@[q] < i + 1 by {
                if q < at {
                    assert(order@[q] == before[q]);
                } else if q > at {
                    assert(order@[q] == before[q - 1]);
                }
            }
            assert forall|p: int, q: int| 0 <= p < q < order@.len() implies sorts_before(
                keys@,
                #[trigger] order@[p] as int,
                #[trigger] order@[q] as int,
            ) by {
                let a = if p < at { p } else { p - 1 };
                let b = if q < at { q } else { q - 1 };
                if p != at && q != at {
                    assert(order@[p] == before[a] && order@[q] == before[b]);
                } else if p == at {
                    assert(order@[q] == before[q - 1]);
                } else {
                    assert(order@[p] == before[p]);
                    if p < at - 1 {
                        assert(sorts_before(keys@, before[p] as int, before[at - 1] as int));
                    }
                }
            }
            assert(order@.no_duplicates()) by {
                assert forall|p: int, q: int| 0 <= p < q < order@.len() implies order@[p] != order@[q] by {
                    assert(sorts_before(keys@, order@[p] as int, order@[q] as int));
                }
            }
        }
        i += 1;
    }
    order
}

/// A stable sort is determined by what it sorts.
pub proof fn law_stable_order_unique(a: Seq<usize>, b: Seq<usize>, keys: Seq<u64>)
    requires
        is_stable_order(a, keys),
        is_stable_order(b, keys),
        keys.len() <= usize::MAX,
    ensures
        a == b,
{
    crate::ensemble::pyrandom::lemma_all_indices(a, keys.len());
    crate::ensemble::pyrandom::lemma_all_indices(b, keys.len());
    assert forall|i: int| 0 <= i < a.len() implies a[i] == b[i] by {
        lemma_same_prefix(a, b, keys, i);
    }
    assert(a =~= b);
}

proof fn lemma_same_prefix(a: Seq<usize>, b: Seq<usize>, keys: Seq<u64>, i: int)
    requires
        is_stable_order(a, keys),
        is_stable_order(b, keys),
        forall|v: usize| v < keys.len() ==> a.contains(v),
        forall|v: usize| v < keys.len() ==> b.contains(v),
        0 <= i < keys.len(),
    ensures
        a[i] == b[i],
        forall|j: int| 0 <= j <= i ==> a[j] == b[j],
    decreases i,
{
    if i > 0 {
        lemma_same_prefix(a, b, keys, i - 1);
    }
    assert(b.contains(a[i]));
    assert(a.contains(b[i]));
    let p = choose|p: int| 0 <= p < b.len() && b[p] == a[i];
    let q = choose|q: int| 0 <= q < a.len() && a[q] == b[i];
    if p < i {
        assert(a[p] == b[p]);
    }
    if q < i {
        assert(a[q] == b[q]);
    }
    if p > i {
        assert(sorts_before(keys, b[i] as int, b[p] as int));
        if q > i {
            assert(sorts_before(keys, a[i] as int, a[q] as int));
        }
    }
}

/// The place of the first least key among those for which `keep` holds, in the total order.
pub fn first_least(keys: &[u64], keep: &[bool]) -> (r: Option<usize>)
    requires
        keys@.len() == keep@.len(),
    ensures
        match r {
            Some(i) => {
                &&& i < keys@.len()
                &&& keep@[i as int]
                &&& forall|j: int|
                    0 <= j < keys@.len() && #[trigger] keep@[j] && j != i ==> sorts_before(keys@, i as int, j)
            },
            None => forall|j: int| 0 <= j < keys@.len() ==> !#[trigger] keep@[j],
        },
{
    let mut best: Option<usize> = None;
    let mut i: usize = 0;
    while i < keys.len()
        invariant
            i <= keys@.len() == keep@.len(),
            match best {
                Some(b) => {
                    &&& b < i
                    &&& keep@[b as int]
                    &&& forall|j: int| 0 <= j < i && #[trigger] keep@[j] && j != b ==> sorts_before(keys@, b as int, j)
                },
                None => forall|j: int| 0 <= j < i ==> !#[trigger] keep@[j],
            },
        decreases keys@.len() - i,
    {
        if keep[i] {
            match best {
                Some(b) => {
                    if total_less(keys[i], keys[b]) {
                        best = Some(i);
                    }
                },
                None => {
                    best = Some(i);
                },
            }
        }
        i += 1;
    }
    best
}

/// The greatest of the first `m` numbers and its place, as a scan finds it that starts with
/// negative infinity at place zero and moves on to a number only where it is greater.
pub open spec fn scan_greatest(v: Seq<u64>, m: nat) -> (nat, u64)
    decreases m,
{
    if m == 0 {
        (0, NEG_INFINITY)
    } else {
        let best = scan_greatest(v, (m - 1) as nat);
        if greater(v[m - 1], best.1) {
            ((m - 1) as nat, v[m - 1])
        } else {
            best
        }
    }
}

/// The place of the first greatest number; zero where none is above negative infinity.
pub fn first_greatest(v: &[u64]) -> (r: usize)
    ensures
        r == scan_greatest(v@, v@.len()).0,
        r < v@.len() || r == 0,
        forall|j: int| 0 <= j < v@.len() && greater(v@[j], NEG_INFINITY) ==> !greater(v@[j], v@[r as int]),
{
    let mut at: usize = 0;
    let mut best: u64 = NEG_INFINITY;
    let mut i: usize = 0;
    while i < v.len()
        invariant
            i <= v@.len(),
            (at as nat, best) == scan_greatest(v@, i as nat),
            at < i || at == 0,
            !nan(best),
            best == NEG_INFINITY || (at < i && best == v@[at as int]),
            best == NEG_INFINITY ==> forall|j: int| 0 <= j < i ==> !greater(#[trigger] v@[j], NEG_INFINITY),
            forall|j: int| 0 <= j < i ==> !greater(#[trigger] v@[j], best),
        decreases v@.len() - i,
    {
        if is_greater(v[i], best) {
            at = i;
            best = v[i];
        }
        i += 1;
    }
    at
}

/// Doubles are no numbers where their bits, but for the sign, are greater than those of infinity, and
/// finite where they are less.
pub proof fn law_kinds_of_doubles(b: u64)
    ensures
        nan(b) <==> b % 0x8000_0000_0000_0000 > 0x7ff0_0000_0000_0000,
        finite(b) <==> b % 0x8000_0000_0000_0000 < 0x7ff0_0000_0000_0000,
{
}

/// Doubles are ordered as their bits where both are positive, and the other way round where both are
/// negative; a positive one is greater than a negative one, but for the zeros. What is no number is
/// not greater than anything, nor is anything greater than it.
pub proof fn law_greater_doubles(a: u64, b: u64)
    ensures
        a % 0x8000_0000_0000_0000 > 0x7ff0_0000_0000_0000 || b % 0x8000_0000_0000_0000 > 0x7ff0_0000_0000_0000
            ==> !greater(a, b) && !at_most(a, b),
        a <= 0x7ff0_0000_0000_0000 && b <= 0x7ff0_0000_0000_0000 ==> (greater(a, b) <==> a > b),
        0x8000_0000_0000_0000 <= a <= 0xfff0_0000_0000_0000 && 0x8000_0000_0000_0000 <= b <= 0xfff0_0000_0000_0000 ==> (
        greater(a, b) <==> a < b),
        a <= 0x7ff0_0000_0000_0000 && 0x8000_0000_0000_0000 <= b <= 0xfff0_0000_0000_0000 ==> (greater(a, b) <==> a != 0
            || b != 0x8000_0000_0000_0000),
        0x8000_0000_0000_0000 <= a <= 0xfff0_0000_0000_0000 && b <= 0x7ff0_0000_0000_0000 ==> !greater(a, b),
        a % 0x8000_0000_0000_0000 <= 0x7ff0_0000_0000_0000 && b % 0x8000_0000_0000_0000 <= 0x7ff0_0000_0000_0000 ==> (
        at_most(a, b) <==> !greater(a, b)),
        equal(a, b) ==> a == b || (a % 0x8000_0000_0000_0000 == 0 && b % 0x8000_0000_0000_0000 == 0),
        a % 0x8000_0000_0000_0000 <= 0x7ff0_0000_0000_0000 ==> equal(a, a),
{
}

/// The total order goes by the bits among positive ones, the other way round among negative ones, and
/// puts every negative one, the zero and what is no number as well, before every positive one.
pub proof fn law_total_order(a: u64, b: u64)
    ensures
        a < 0x8000_0000_0000_0000 && b < 0x8000_0000_0000_0000 ==> (total_rank(a) < total_rank(b) <==> a < b),
        a >= 0x8000_0000_0000_0000 && b >= 0x8000_0000_0000_0000 ==> (total_rank(a) < total_rank(b) <==> a > b),
        a >= 0x8000_0000_0000_0000 && b < 0x8000_0000_0000_0000 ==> total_rank(a) < total_rank(b),
{
}

/// In a stable order no key comes before a lesser one, and equal keys come as they were.
pub proof fn law_stable_orders_ascend(order: Seq<usize>, keys: Seq<u64>, i: int, j: int)
    requires
        is_stable_order(order, keys),
        0 <= i < j < order.len(),
    ensures
        total_rank(keys[order[i] as int]) <= total_rank(keys[order[j] as int]),
        keys[order[i] as int] == keys[order[j] as int] ==> order[i] < order[j],
{
    assert(sorts_before(keys, order[i] as int, order[j] as int));
}

/// The greatest of the first numbers is as great as any of them, and is the first that is; where none
/// is greater than minus infinity, it is the first place.
pub proof fn law_first_greatest(v: Seq<u64>, m: nat)
    requires
        m <= v.len(),
    ensures
        ({
            let (at, best) = scan_greatest(v, m);
            &&& forall|j: int| 0 <= j < m ==> !greater(#[trigger] v[j], best)
            &&& (at == 0 && best == 0xfff0_0000_0000_0000 && forall|j: int|
                0 <= j < m ==> !greater(#[trigger] v[j], 0xfff0_0000_0000_0000)) || (at < m && v[at as int] == best && !nan(
                best,
            ) && forall|j: int| 0 <= j < at ==> (#[trigger] v[j] != best && (nan(v[j]) || greater(best, v[j]))))
        }),
    decreases m,
{
    if m > 0 {
        law_first_greatest(v, (m - 1) as nat);
    }
}

} // verus!
