//! The names of a model's weights.

use vstd::prelude::*;

use crate::text;

verus! {

/// What strings hold.
pub open spec fn views(s: Seq<String>) -> Seq<Seq<char>> {
    s.map_values(|n: String| n@)
}

/// What string slices hold.
pub open spec fn str_views(s: Seq<&str>) -> Seq<Seq<char>> {
    s.map_values(|n: &str| n@)
}

/// The name of a weight of a block.
pub open spec fn block_name(prefix: Seq<char>, n: nat, leaf: Seq<char>) -> Seq<char> {
    prefix + text::decimal(n) + "."@ + leaf
}

/// The names of all weights of `n` blocks, block after block.
pub open spec fn block_names(prefix: Seq<char>, leaves: Seq<Seq<char>>, n: nat) -> Seq<Seq<char>>
    decreases n,
{
    if n == 0 {
        Seq::empty()
    } else {
        block_names(prefix, leaves, (n - 1) as nat) + leaves.map_values(
            |l: Seq<char>| block_name(prefix, (n - 1) as nat, l),
        )
    }
}

/// The name of a weight of a block.
pub fn name_of(prefix: &str, n: usize, leaf: &str) -> (r: String)
    ensures
        r@ == block_name(prefix@, n as nat, leaf@),
{
    let mut out: String = prefix.to_string();
    text::push_decimal(&mut out, n as u64);
    out.append(".");
    out.append(leaf);
    out
}

/// Appends names.
pub fn push_names(out: &mut Vec<String>, names: &[&str])
    ensures
        views(final(out)@) == views(old(out)@) + str_views(names@),
{
    let mut i: usize = 0;
    assert(views(out@) =~= views(old(out)@) + str_views(names@).take(0));
    while i < names.len()
        invariant
            i <= names@.len(),
            views(out@) == views(old(out)@) + str_views(names@).take(i as int),
        decreases names@.len() - i,
    {
        let ghost had = out@;
        out.push(names[i].to_string());
        assert(views(out@) =~= views(had).push(str_views(names@)[i as int]));
        i += 1;
        assert(views(out@) =~= views(old(out)@) + str_views(names@).take(i as int));
    }
    assert(str_views(names@).take(i as int) =~= str_views(names@));
}

/// Names with a prefix.
pub open spec fn under(prefix: Seq<char>, names: Seq<Seq<char>>) -> Seq<Seq<char>> {
    names.map_values(|l: Seq<char>| prefix + l)
}

/// Appends names with a prefix.
pub fn push_under(out: &mut Vec<String>, prefix: &str, names: &[&str])
    ensures
        views(final(out)@) == views(old(out)@) + under(prefix@, str_views(names@)),
{
    let ghost all = under(prefix@, str_views(names@));
    let mut i: usize = 0;
    assert(views(out@) =~= views(old(out)@) + all.take(0));
    while i < names.len()
        invariant
            i <= names@.len(),
            all == under(prefix@, str_views(names@)),
            views(out@) == views(old(out)@) + all.take(i as int),
        decreases names@.len() - i,
    {
        let ghost had = out@;
        let mut name: String = prefix.to_string();
        name.append(names[i]);
        out.push(name);
        assert(views(out@) =~= views(had).push(all[i as int]));
        i += 1;
        assert(views(out@) =~= views(old(out)@) + all.take(i as int));
    }
    assert(all.take(i as int) =~= all);
}

/// Appends the names of all weights of `n` blocks.
pub fn push_blocks(out: &mut Vec<String>, prefix: &str, leaves: &Vec<String>, n: usize)
    ensures
        views(final(out)@) == views(old(out)@) + block_names(prefix@, views(leaves@), n as nat),
{
    let ghost ls = views(leaves@);
    let mut b: usize = 0;
    assert(views(out@) =~= views(old(out)@) + block_names(prefix@, ls, 0));
    while b < n
        invariant
            b <= n,
            ls == views(leaves@),
            views(out@) == views(old(out)@) + block_names(prefix@, ls, b as nat),
        decreases n - b,
    {
        let ghost before = views(out@);
        let ghost here = ls.map_values(|l: Seq<char>| block_name(prefix@, b as nat, l));
        let mut i: usize = 0;
        assert(views(out@) =~= before + here.take(0));
        while i < leaves.len()
            invariant
                i <= leaves@.len(),
                ls == views(leaves@),
                here == ls.map_values(|l: Seq<char>| block_name(prefix@, b as nat, l)),
                views(out@) == before + here.take(i as int),
            decreases leaves@.len() - i,
        {
            let ghost had = out@;
            out.push(name_of(prefix, b, leaves[i].as_str()));
            assert(views(out@) =~= views(had).push(here[i as int]));
            i += 1;
            assert(views(out@) =~= before + here.take(i as int));
        }
        assert(here.take(i as int) =~= here);
        b += 1;
        assert(views(out@) =~= views(old(out)@) + block_names(prefix@, ls, b as nat));
    }
}

/// Appends the names of all weights of `n` blocks.
pub fn push_block_names(out: &mut Vec<String>, prefix: &str, leaves: &[&str], n: usize)
    ensures
        views(final(out)@) == views(old(out)@) + block_names(prefix@, str_views(leaves@), n as nat),
{
    let mut owned: Vec<String> = Vec::new();
    push_names(&mut owned, leaves);
    assert(views(owned@) =~= str_views(leaves@));
    push_blocks(out, prefix, &owned, n);
}

/// The number of names is that of the leaves for every block.
pub proof fn law_block_names_count(prefix: Seq<char>, leaves: Seq<Seq<char>>, n: nat)
    ensures
        block_names(prefix, leaves, n).len() == n * leaves.len(),
    decreases n,
{
    if n > 0 {
        law_block_names_count(prefix, leaves, (n - 1) as nat);
        assert((n - 1) * leaves.len() + leaves.len() == n * leaves.len()) by (nonlinear_arith);
    } else {
        assert(0 * leaves.len() == 0) by (nonlinear_arith);
    }
}

/// Leaf `i` of block `b` has its place among the names.
pub proof fn law_block_names_listed(prefix: Seq<char>, leaves: Seq<Seq<char>>, n: nat, b: int, i: int)
    requires
        0 <= b < n,
        0 <= i < leaves.len(),
    ensures
        0 <= b * leaves.len() + i < block_names(prefix, leaves, n).len(),
        block_names(prefix, leaves, n)[b * leaves.len() + i] == block_name(prefix, b as nat, leaves[i]),
    decreases n,
{
    law_block_names_count(prefix, leaves, n);
    law_block_names_count(prefix, leaves, (n - 1) as nat);
    assert(0 <= b * leaves.len() && (n - 1) * leaves.len() + leaves.len() == n * leaves.len()) by (nonlinear_arith)
        requires
            0 <= b,
    ;
    if b < n - 1 {
        law_block_names_listed(prefix, leaves, (n - 1) as nat, b, i);
    }
}

/// A block's weight is named by the prefix, the block's number, a dot and the leaf.
pub proof fn law_block_names_spelled(prefix: Seq<char>, leaves: Seq<Seq<char>>, n: nat, b: int, i: int)
    requires
        0 <= b < n,
        0 <= i < leaves.len(),
    ensures
        block_names(prefix, leaves, n)[b * leaves.len() + i] == prefix + text::decimal(b as nat) + "."@ + leaves[i],
{
    law_block_names_listed(prefix, leaves, n, b, i);
}

/// Names under a prefix are the names with the prefix before each.
pub proof fn law_names_under_prefixes(prefix: Seq<char>, names: Seq<Seq<char>>, i: int)
    ensures
        under(prefix, names).len() == names.len(),
        0 <= i < names.len() ==> under(prefix, names)[i] == prefix + names[i],
{
}

} // verus!
