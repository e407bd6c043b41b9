//! The files of a sharded checkpoint.
//!
//! An index names, for every tensor, the file that holds it. The files are read in the order of their
//! names, each once.

use vstd::prelude::*;

use crate::json;
use crate::json::JsonError;
use crate::text;

verus! {

/// Whether the names come in order, each once.
pub open spec fn in_order(names: Seq<Seq<char>>) -> bool {
    forall|i: int, j: int| 0 <= i < j < names.len() ==> text::text_less(#[trigger] names[i], #[trigger] names[j])
}

/// What strings hold.
pub open spec fn views(s: Seq<String>) -> Seq<Seq<char>> {
    s.map_values(|n: String| n@)
}

/// The names in order are those among the entries, and no others.
pub open spec fn shards_of(names: Seq<Seq<char>>, entries: Seq<Option<Seq<char>>>) -> bool {
    &&& in_order(names)
    &&& forall|n: Seq<char>| #[trigger] names.contains(n) <==> entries.contains(Some(n))
}

/// Puts a name in its place among others in order, unless it is there.
fn insert_name(names: &mut Vec<String>, name: String)
    requires
        in_order(views(old(names)@)),
    ensures
        in_order(views(final(names)@)),
        forall|n: Seq<char>| #[trigger]
            views(final(names)@).contains(n) <==> (views(old(names)@).contains(n) || n == name@),
{
    let ghost before = views(names@);
    let mut at: usize = 0;
    while at < names.len() && text::less(names[at].as_str(), name.as_str())
        invariant
            at <= names@.len(),
            before == views(names@),
            forall|q: int| 0 <= q < at ==> text::text_less(#[trigger] before[q], name@),
        decreases names@.len() - at,
    {
        assert(before[at as int] == names@[at as int]@);
        at += 1;
    }
    if at < names.len() && text::same(names[at].as_str(), name.as_str()) {
        assert(before[at as int] == name@);
        return;
    }
    let ghost held = name@;
    proof {
        assert(at < before.len() ==> text::text_less(held, before[at as int])) by {
            if at < before.len() {
                assert(before[at as int] == names@[at as int]@);
                text::lemma_text_less_total(before[at as int], held);
            }
        }
    }
    names.insert(at, name);
    let ghost after = views(names@);
    proof {
        assert(after =~= before.insert(at as int, held));
        assert forall|i: int, j: int| 0 <= i < j < after.len() implies text::text_less(
            #[trigger] after[i],
            #[trigger] after[j],
        ) by {
            if i < at && j > at {
                assert(after[j] == before[j - 1]);
                assert(text::text_less(before[i], before[j - 1]));
            } else if i < at && j == at {
                assert(after[i] == before[i]);
            } else if i == at {
                assert(after[j] == before[j - 1]);
                if j - 1 > at {
                    text::lemma_text_less_transitive(held, before[at as int], before[j - 1]);
                }
            } else if i > at {
                assert(text::text_less(before[i - 1], before[j - 1]));
            } else {
                assert(text::text_less(before[i], before[j]));
            }
        }
        assert forall|n: Seq<char>| #[trigger] after.contains(n) <==> (before.contains(n) || n == held) by {
            if before.contains(n) {
                let k = choose|k: int| 0 <= k < before.len() && before[k] == n;
                assert(after[if k < at { k } else { k + 1 }] == n);
            }
            if n == held {
                assert(after[at as int] == n);
            }
            if after.contains(n) && n != held {
                let k = choose|k: int| 0 <= k < after.len() && after[k] == n;
                assert(before[if k < at { k } else { k - 1 }] == n);
            }
        }
    }
}

/// The files among the entries of an index, in order; entries that are no text are passed over.
pub fn shard_names(entries: Vec<Option<String>>) -> (r: Vec<String>)
    ensures
        shards_of(views(r@), json::all_held(entries@)),
{
    let ghost es = json::all_held(entries@);
    let mut names: Vec<String> = Vec::new();
    let mut i: usize = 0;
    assert(es.take(0) =~= Seq::empty());
    while i < entries.len()
        invariant
            i <= entries@.len(),
            es == json::all_held(entries@),
            shards_of(views(names@), es.take(i as int)),
        decreases entries@.len() - i,
    {
        let ghost before = views(names@);
        let ghost upto = es.take(i as int);
        let ghost next = es.take(i + 1);
        assert(next =~= upto.push(es[i as int]));
        match &entries[i] {
            Some(name) => insert_name(&mut names, name.as_str().to_string()),
            None => {},
        }
        assert forall|n: Seq<char>| #[trigger] views(names@).contains(n) <==> next.contains(Some(n)) by {
            assert(before.contains(n) <==> upto.contains(Some(n)));
            if upto.contains(Some(n)) {
                let k = choose|k: int| 0 <= k < upto.len() && upto[k] == Some(n);
                assert(next[k] == Some(n));
            }
            if es[i as int] == Some(n) {
                assert(next[i as int] == Some(n));
            }
            if next.contains(Some(n)) && es[i as int] != Some(n) {
                let k = choose|k: int| 0 <= k < next.len() && next[k] == Some(n);
                assert(upto[k] == Some(n));
            }
        }
        i += 1;
    }
    assert(es.take(i as int) =~= es);
    names
}

/// The files that an index names, in order.
pub fn index_shards(index: &str) -> (r: Result<Vec<String>, JsonError>)
    ensures
        match r {
            Ok(names) => json::readable(index@) && (json::texts_of(index@, "weight_map"@) matches Some(entries)
                && shards_of(views(names@), entries)),
            Err(JsonError::NoObject) => json::readable(index@) && json::texts_of(index@, "weight_map"@) is None,
            Err(JsonError::Malformed { .. }) => !json::readable(index@),
        },
{
    match json::texts_under(index, "weight_map") {
        Ok(entries) => Ok(shard_names(entries)),
        Err(e) => Err(e),
    }
}

/// The entries of an index alone fix the files and their order.
pub proof fn law_shards_unique(a: Seq<Seq<char>>, b: Seq<Seq<char>>, entries: Seq<Option<Seq<char>>>)
    requires
        shards_of(a, entries),
        shards_of(b, entries),
    ensures
        a == b,
{
    assert forall|n: Seq<char>| a.contains(n) <==> b.contains(n) by {
        assert(a.contains(n) <==> entries.contains(Some(n)));
        assert(b.contains(n) <==> entries.contains(Some(n)));
    }
    lemma_same_members(a, b);
}

proof fn lemma_same_members(a: Seq<Seq<char>>, b: Seq<Seq<char>>)
    requires
        in_order(a),
        in_order(b),
        forall|n: Seq<char>| a.contains(n) <==> b.contains(n),
    ensures
        a == b,
    decreases a.len(),
{
    if a.len() == 0 {
        if b.len() > 0 {
            assert(b.contains(b[0]));
        }
        assert(a =~= b);
    } else {
        assert(a.contains(a[0]));
        if b.len() == 0 {
            assert(b.contains(a[0]));
        }
        assert(b.contains(b[0]));
        lemma_least(a, b);
        let (x, y) = (a.skip(1), b.skip(1));
        assert forall|i: int, j: int| 0 <= i < j < x.len() implies text::text_less(
            #[trigger] x[i],
            #[trigger] x[j],
        ) by {
            assert(text::text_less(a[i + 1], a[j + 1]));
        }
        assert forall|i: int, j: int| 0 <= i < j < y.len() implies text::text_less(
            #[trigger] y[i],
            #[trigger] y[j],
        ) by {
            assert(text::text_less(b[i + 1], b[j + 1]));
        }
        assert forall|n: Seq<char>| x.contains(n) <==> y.contains(n) by {
            lemma_tail(a, n);
            lemma_tail(b, n);
        }
        lemma_same_members(x, y);
        assert(a =~= seq![a[0]] + x);
        assert(b =~= seq![b[0]] + y);
    }
}

proof fn lemma_tail(a: Seq<Seq<char>>, n: Seq<char>)
    requires
        a.len() > 0,
        in_order(a),
    ensures
        a.skip(1).contains(n) <==> a.contains(n) && n != a[0],
{
    if a.skip(1).contains(n) {
        let k = choose|k: int| 0 <= k < a.skip(1).len() && a.skip(1)[k] == n;
        assert(a[k + 1] == n);
        assert(text::text_less(a[0], a[k + 1]));
        text::lemma_text_less_irreflexive(a[0]);
    }
    if a.contains(n) && n != a[0] {
        let k = choose|k: int| 0 <= k < a.len() && a[k] == n;
        assert(a.skip(1)[k - 1] == n);
    }
}

proof fn lemma_least(a: Seq<Seq<char>>, b: Seq<Seq<char>>)
    requires
        a.len() > 0,
        b.len() > 0,
        in_order(a),
        in_order(b),
        b.contains(a[0]),
        a.contains(b[0]),
    ensures
        a[0] == b[0],
{
    let i = choose|i: int| 0 <= i < b.len() && b[i] == a[0];
    let j = choose|j: int| 0 <= j < a.len() && a[j] == b[0];
    if i > 0 && j > 0 {
        assert(text::text_less(b[0], b[i]));
        assert(text::text_less(a[0], a[j]));
        text::lemma_text_less_transitive(a[0], b[0], a[0]);
        text::lemma_text_less_irreflexive(a[0]);
    }
}

} // verus!
