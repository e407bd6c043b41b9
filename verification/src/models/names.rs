//! Tensor names: numbered path segments.

use vstd::prelude::*;

use crate::text;

verus! {

/// The number before the first dot of `rest` and what follows that dot, if `rest` has such a
/// number of at most `max`.
pub open spec fn numbered(rest: Seq<char>, max: nat) -> Option<(nat, Seq<char>)> {
    let dot = text::position(rest, '.');
    if dot < rest.len() {
        match text::parsed(rest.subrange(0, dot), max) {
            Some(n) => Some((n, rest.subrange(dot + 1, rest.len() as int))),
            None => None,
        }
    } else {
        None
    }
}

/// `prefix`, the number `n`, a dot and `leaf`.
pub open spec fn joined(prefix: Seq<char>, n: nat, leaf: Seq<char>) -> Seq<char> {
    prefix + text::decimal(n) + "."@ + leaf
}

/// The name `prefix{n}.leaf` for a number and a mapped leaf.
pub open spec fn numbered_name(prefix: Seq<char>, n: nat, leaf: Option<Seq<char>>) -> Option<Seq<char>> {
    match leaf {
        Some(l) => Some(joined(prefix, n, l)),
        None => None,
    }
}

/// What an optional string holds.
pub open spec fn held(o: Option<String>) -> Option<Seq<char>> {
    match o {
        Some(s) => Some(s@),
        None => None,
    }
}

/// What an optional string slice holds.
pub open spec fn held_str(o: Option<&str>) -> Option<Seq<char>> {
    match o {
        Some(s) => Some(s@),
        None => None,
    }
}

proof fn lemma_position_in_digits(s: Seq<char>, d: int, from: int)
    requires
        0 <= from <= d < s.len(),
        forall|i: int| 0 <= i < d ==> text::is_digit(#[trigger] s[i]),
        s[d] == '.',
    ensures
        text::position_from(s, '.', from) == d,
    decreases d - from,
{
    if from < d {
        assert(text::is_digit(s[from]));
        lemma_position_in_digits(s, d, from + 1);
    }
}

/// A number that was written before a dot is read back, and so is what follows the dot.
pub proof fn law_numbered_reads_back(n: nat, leaf: Seq<char>, max: nat)
    requires
        n <= max,
    ensures
        numbered(text::decimal(n) + "."@ + leaf, max) == Some((n, leaf)),
{
    let d = text::decimal(n);
    let s = d + "."@ + leaf;
    reveal_strlit(".");
    text::lemma_decimal_reads_back(n);
    assert(s[d.len() as int] == '.');
    assert forall|i: int| 0 <= i < d.len() implies text::is_digit(#[trigger] s[i]) by {
        assert(s[i] == d[i]);
    }
    lemma_position_in_digits(s, d.len() as int, 0);
    assert(s.subrange(0, d.len() as int) =~= d);
    assert(s.subrange(d.len() as int + 1, s.len() as int) =~= leaf);
}

/// Removing a prefix gives back what was put after it.
pub proof fn lemma_prefix_removed(prefix: Seq<char>, rest: Seq<char>)
    ensures
        text::has_prefix(prefix + rest, prefix),
        text::without_prefix(prefix + rest, prefix) == rest,
{
    assert((prefix + rest).subrange(0, prefix.len() as int) =~= prefix);
    assert(text::without_prefix(prefix + rest, prefix) =~= rest);
}

/// A name with one prefix does not have another that differs from it somewhere.
pub proof fn lemma_other_prefix(prefix: Seq<char>, rest: Seq<char>, other: Seq<char>, k: int)
    requires
        0 <= k < prefix.len(),
        k < other.len(),
        prefix[k] != other[k],
    ensures
        !text::has_prefix(prefix + rest, other),
        prefix + rest != other,
{
    let name = prefix + rest;
    assert(name[k] == prefix[k]);
    if text::has_prefix(name, other) {
        assert(name.subrange(0, other.len() as int)[k] == name[k]);
    }
}

/// A name ends in what follows its number.
pub proof fn lemma_numbered_ends(name: Seq<char>, prefix: Seq<char>, max: nat)
    requires
        text::has_prefix(name, prefix),
        numbered(text::without_prefix(name, prefix), max) is Some,
    ensures
        text::has_suffix(name, (numbered(text::without_prefix(name, prefix), max)->0).1),
{
    let rest = text::without_prefix(name, prefix);
    let (_n, leaf) = numbered(rest, max)->0;
    text::lemma_position(rest, '.');
    assert(name.subrange(name.len() - leaf.len(), name.len() as int) =~= leaf);
}

/// Whether the number that a text starts with, if it starts with one of at most `max` before a dot, is
/// written as its decimal.
pub open spec fn plain(rest: Seq<char>, max: nat) -> bool {
    numbered(rest, max) matches Some((n, leaf)) ==> rest == text::decimal(n) + "."@ + leaf
}

/// Whether every number of at most `max` among the segments of a name is written as its decimal.
pub open spec fn canonical(name: Seq<char>, max: nat) -> bool {
    forall|i: int|
        0 <= i <= name.len() && (i == 0 || name[i - 1] == '.') ==> plain(
            #[trigger] name.subrange(i, name.len() as int),
            max,
        )
}

/// What follows a prefix that ends in a dot starts with no number but in decimal.
pub proof fn lemma_plain_rest(name: Seq<char>, prefix: Seq<char>, max: nat)
    requires
        canonical(name, max),
        text::has_prefix(name, prefix),
        prefix.len() > 0,
        prefix.last() == '.',
    ensures
        plain(text::without_prefix(name, prefix), max),
{
    let k = prefix.len() as int;
    assert(name.subrange(0, k)[k - 1] == prefix[k - 1]);
    assert(text::without_prefix(name, prefix) =~= name.subrange(k, name.len() as int));
}

/// What follows a dot in a name writes its numbers in decimal where the name does.
pub proof fn lemma_canonical_from(name: Seq<char>, k: int, max: nat)
    requires
        canonical(name, max),
        0 < k <= name.len(),
        name[k - 1] == '.',
    ensures
        canonical(name.subrange(k, name.len() as int), max),
{
    let rest = name.subrange(k, name.len() as int);
    assert forall|i: int| 0 <= i <= rest.len() && (i == 0 || rest[i - 1] == '.') implies plain(
        #[trigger] rest.subrange(i, rest.len() as int),
        max,
    ) by {
        assert(rest.subrange(i, rest.len() as int) =~= name.subrange(k + i, name.len() as int));
    }
}

/// What follows a prefix that ends in a dot writes its numbers in decimal where the name does.
pub proof fn lemma_canonical_rest(name: Seq<char>, prefix: Seq<char>, max: nat)
    requires
        canonical(name, max),
        text::has_prefix(name, prefix),
        prefix.len() > 0,
        prefix.last() == '.',
    ensures
        canonical(text::without_prefix(name, prefix), max),
{
    let k = prefix.len() as int;
    assert(name.subrange(0, k)[k - 1] == prefix[k - 1]);
    lemma_canonical_from(name, k, max);
}

/// What follows the first number of a name writes its numbers in decimal where the name does.
pub proof fn lemma_canonical_leaf(rest: Seq<char>, max: nat)
    requires
        canonical(rest, max),
        numbered(rest, max) is Some,
    ensures
        canonical((numbered(rest, max)->0).1, max),
{
    let (n, leaf) = numbered(rest, max)->0;
    assert(rest.subrange(0, rest.len() as int) =~= rest);
    assert(plain(rest, max));
    reveal_strlit(".");
    let k = text::decimal(n).len() as int + 1;
    assert(rest[k - 1] == '.');
    lemma_canonical_from(rest, k, max);
    assert(rest.subrange(k, rest.len() as int) =~= leaf);
}

/// Names of a number and a leaf behind one prefix are the same only where both are.
pub proof fn lemma_joined_same(prefix: Seq<char>, n: nat, leaf: Seq<char>, m: nat, other: Seq<char>)
    requires
        joined(prefix, n, leaf) == joined(prefix, m, other),
    ensures
        n == m,
        leaf == other,
{
    let a = text::decimal(n) + "."@ + leaf;
    let b = text::decimal(m) + "."@ + other;
    let max = if n < m {
        m
    } else {
        n
    };
    assert(joined(prefix, n, leaf) =~= prefix + a);
    assert(joined(prefix, m, other) =~= prefix + b);
    lemma_prefix_removed(prefix, a);
    lemma_prefix_removed(prefix, b);
    law_numbered_reads_back(n, leaf, max);
    law_numbered_reads_back(m, other, max);
}

/// Names with one prefix are the same where what follows it is.
pub proof fn lemma_same_rest(a: Seq<char>, b: Seq<char>, prefix: Seq<char>)
    requires
        text::has_prefix(a, prefix),
        text::has_prefix(b, prefix),
        text::without_prefix(a, prefix) == text::without_prefix(b, prefix),
    ensures
        a == b,
{
    assert(a =~= prefix + text::without_prefix(a, prefix)) by {
        assert(a.subrange(0, prefix.len() as int) == prefix);
        assert forall|i: int| 0 <= i < prefix.len() implies a[i] == prefix[i] by {
            assert(a.subrange(0, prefix.len() as int)[i] == a[i]);
        }
    }
    assert(b =~= prefix + text::without_prefix(b, prefix)) by {
        assert forall|i: int| 0 <= i < prefix.len() implies b[i] == prefix[i] by {
            assert(b.subrange(0, prefix.len() as int)[i] == b[i]);
        }
    }
}

/// Numbered names that are written in decimal are the same where the names of their number and mapped
/// leaf are, if different leaves are mapped differently.
pub proof fn lemma_numbered_same(
    a: Seq<char>,
    b: Seq<char>,
    prefix: Seq<char>,
    max: nat,
    stem: Seq<char>,
    mapped_a: Seq<char>,
    mapped_b: Seq<char>,
)
    requires
        canonical(a, max),
        canonical(b, max),
        text::has_prefix(a, prefix),
        text::has_prefix(b, prefix),
        prefix.len() > 0,
        prefix.last() == '.',
        numbered(text::without_prefix(a, prefix), max) is Some,
        numbered(text::without_prefix(b, prefix), max) is Some,
        ({
            let (n, la) = numbered(text::without_prefix(a, prefix), max)->0;
            let (m, lb) = numbered(text::without_prefix(b, prefix), max)->0;
            joined(stem, n, mapped_a) == joined(stem, m, mapped_b) && (mapped_a == mapped_b ==> la == lb)
        }),
    ensures
        a == b,
{
    let (n, _la) = numbered(text::without_prefix(a, prefix), max)->0;
    let (m, _lb) = numbered(text::without_prefix(b, prefix), max)->0;
    lemma_plain_rest(a, prefix, max);
    lemma_plain_rest(b, prefix, max);
    lemma_joined_same(stem, n, mapped_a, m, mapped_b);
    lemma_same_rest(a, b, prefix);
}

/// Splits off the number before the first dot.
pub fn split_number<'a>(rest: &'a str, max: u64) -> (r: Option<(u64, &'a str)>)
    ensures
        match r {
            Some((n, leaf)) => numbered(rest@, max as nat) == Some((n as nat, leaf@)),
            None => numbered(rest@, max as nat) is None,
        },
{
    match text::split_once(rest, '.') {
        Some((head, leaf)) => match text::parse_decimal(head, max) {
            Some(n) => Some((n, leaf)),
            None => None,
        },
        None => None,
    }
}

/// Builds `prefix{n}.leaf`.
pub fn join_numbered(prefix: &str, n: u64, leaf: &str) -> (r: String)
    ensures
        r@ == joined(prefix@, n as nat, leaf@),
{
    let mut out = String::new();
    out.append(prefix);
    text::push_decimal(&mut out, n);
    out.append(".");
    out.append(leaf);
    assert(out@ =~= joined(prefix@, n as nat, leaf@));
    out
}

/// Builds `prefix{n}.leaf` where the leaf is mapped.
pub fn join_numbered_leaf(prefix: &str, n: u64, leaf: Option<&str>) -> (r: Option<String>)
    ensures
        held(r) == numbered_name(prefix@, n as nat, held_str(leaf)),
{
    match leaf {
        Some(l) => Some(join_numbered(prefix, n, l)),
        None => None,
    }
}

} // verus!
