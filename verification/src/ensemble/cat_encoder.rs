//! Ordinal codes for categorical values and for class labels.
//!
//! A categorical column's values are numbered in the order in which they first appear. Class
//! labels are numbered in alphabetical order. Missing and unknown values have the code `-1`.

use vstd::prelude::*;

use crate::text;

verus! {

/// One cell of a table, as far as encoding reads it.
pub enum Cell {
    Null,
    Text(String),
    /// A number, as it is written.
    Number(String),
    Bool(bool),
    /// Any other value, as it is written.
    Other(String),
}

/// Whether `s` spells "nan" in any case.
pub open spec fn spells_nan(s: Seq<char>) -> bool {
    &&& s.len() == 3
    &&& text::is_letter(s[0], 'n', 'N')
    &&& text::is_letter(s[1], 'a', 'A')
    &&& text::is_letter(s[2], 'n', 'N')
}

impl Cell {
    /// Whether the cell counts as missing: null, the empty text, or "nan".
    pub open spec fn missing(self) -> bool {
        match self {
            Cell::Null => true,
            Cell::Text(s) => s@.len() == 0 || spells_nan(s@),
            _ => false,
        }
    }

    /// The text that identifies the cell's value.
    pub open spec fn key(self) -> Seq<char> {
        match self {
            Cell::Null => "null"@,
            Cell::Text(s) => s@,
            Cell::Number(s) => s@,
            Cell::Bool(b) => if b {
                "true"@
            } else {
                "false"@
            },
            Cell::Other(s) => s@,
        }
    }
}

/// Whether a cell counts as missing.
pub fn is_missing(v: &Cell) -> (r: bool)
    ensures
        r == v.missing(),
{
    match v {
        Cell::Null => true,
        Cell::Text(s) => {
            let t: &str = s.as_str();
            if t.unicode_len() == 0 {
                return true;
            }
            if t.unicode_len() != 3 {
                return false;
            }
            let a: char = t.get_char(0);
            let b: char = t.get_char(1);
            let c: char = t.get_char(2);
            (a == 'n' || a == 'N') && (b == 'a' || b == 'A') && (c == 'n' || c == 'N')
        },
        _ => false,
    }
}

/// The text that identifies a cell's value.
pub fn value_key(v: &Cell) -> (r: String)
    ensures
        r@ == v.key(),
{
    match v {
        Cell::Null => "null".to_owned(),
        Cell::Text(s) => s.clone(),
        Cell::Number(s) => s.clone(),
        Cell::Bool(b) => if *b {
            "true".to_owned()
        } else {
            "false".to_owned()
        },
        Cell::Other(s) => s.clone(),
    }
}

/// The strings of `v`.
pub open spec fn texts(v: Seq<String>) -> Seq<Seq<char>> {
    v.map_values(|s: String| s@)
}

/// The code of `key`: its place among `names`, or `-1`.
pub open spec fn code_of(names: Seq<Seq<char>>, key: Seq<char>) -> int {
    if names.contains(key) {
        names.index_of(key)
    } else {
        -1
    }
}

/// The code of a cell.
pub open spec fn cell_code(names: Seq<Seq<char>>, v: Cell) -> int {
    if v.missing() {
        -1
    } else {
        code_of(names, v.key())
    }
}

/// Distinct names are coded by their places.
pub proof fn law_codes_decode(names: Seq<Seq<char>>, c: int)
    requires
        names.no_duplicates(),
        0 <= c < names.len(),
    ensures
        code_of(names, names[c]) == c,
{
    assert(names.contains(names[c]));
}

/// Different known values have different codes.
pub proof fn law_codes_separate(names: Seq<Seq<char>>, a: Seq<char>, b: Seq<char>)
    requires
        names.contains(a),
        names.contains(b),
        code_of(names, a) == code_of(names, b),
    ensures
        a == b,
{
}

/// The place of `key` among `names`, or `-1`.
fn find_code(names: &Vec<String>, key: &str) -> (r: i64)
    requires
        names@.len() <= i64::MAX,
        texts(names@).no_duplicates(),
    ensures
        r == code_of(texts(names@), key@),
{
    let mut i: usize = 0;
    while i < names.len()
        invariant
            i <= names@.len() <= i64::MAX,
            texts(names@).no_duplicates(),
            forall|q: int| 0 <= q < i ==> #[trigger] texts(names@)[q] != key@,
        decreases names@.len() - i,
    {
        assert(texts(names@)[i as int] == names@[i as int]@);
        if text::same(names[i].as_str(), key) {
            proof {
                law_codes_decode(texts(names@), i as int);
            }
            return i as i64;
        }
        i += 1;
    }
    -1
}

/// The codes of a column.
fn encode(names: &Vec<String>, column: &[Cell]) -> (r: Vec<i64>)
    requires
        names@.len() <= i64::MAX,
        texts(names@).no_duplicates(),
    ensures
        r@.len() == column@.len(),
        forall|i: int| 0 <= i < r@.len() ==> #[trigger] r@[i] == cell_code(texts(names@), column@[i]),
{
    let mut out: Vec<i64> = Vec::new();
    let mut i: usize = 0;
    while i < column.len()
        invariant
            i <= column@.len(),
            names@.len() <= i64::MAX,
            texts(names@).no_duplicates(),
            out@.len() == i,
            forall|q: int| 0 <= q < i ==> #[trigger] out@[q] == cell_code(texts(names@), column@[q]),
        decreases column@.len() - i,
    {
        if is_missing(&column[i]) {
            out.push(-1);
        } else {
            let key: String = value_key(&column[i]);
            out.push(find_code(names, key.as_str()));
        }
        i += 1;
    }
    out
}

/// The keys of the cells that are not missing, each at its first appearance.
pub open spec fn appearances(column: Seq<Cell>) -> Seq<Seq<char>>
    decreases column.len(),
{
    if column.len() == 0 {
        Seq::empty()
    } else {
        let before = appearances(column.drop_last());
        let v = column.last();
        if v.missing() || before.contains(v.key()) {
            before
        } else {
            before.push(v.key())
        }
    }
}

/// Codes for the values of a categorical column.
pub struct CategoricalOrdinalEncoder {
    names: Vec<String>,
}

impl CategoricalOrdinalEncoder {
    /// The values in the order of their codes.
    pub closed spec fn values(&self) -> Seq<Seq<char>> {
        texts(self.names@)
    }

    /// No value has two codes, and codes fit their type.
    pub open spec fn wf(&self) -> bool {
        self.values().no_duplicates() && self.values().len() <= i64::MAX
    }

    /// Numbers the values of `column` in the order of their first appearance.
    pub fn fit(column: &[Cell]) -> (r: Self)
        requires
            column@.len() <= i64::MAX,
        ensures
            r.values() == appearances(column@),
            r.wf(),
    {
        let mut names: Vec<String> = Vec::new();
        let mut i: usize = 0;
        assert(texts(names@) =~= appearances(column@.subrange(0, 0)));
        while i < column.len()
            invariant
                i <= column@.len() <= i64::MAX,
                names@.len() <= i,
                texts(names@) == appearances(column@.subrange(0, i as int)),
                texts(names@).no_duplicates(),
            decreases column@.len() - i,
        {
            let ghost so_far = column@.subrange(0, i + 1);
            assert(so_far.drop_last() =~= column@.subrange(0, i as int));
            assert(so_far.last() == column@[i as int]);
            if !is_missing(&column[i]) {
                let key: String = value_key(&column[i]);
                let ghost before = texts(names@);
                if find_code(&names, key.as_str()) < 0 {
                    names.push(key);
                    assert(texts(names@) =~= before.push(key@));
                }
            }
            i += 1;
        }
        assert(column@.subrange(0, i as int) =~= column@);
        CategoricalOrdinalEncoder { names }
    }

    /// The codes of a column's cells.
    pub fn transform(&self, column: &[Cell]) -> (r: Vec<i64>)
        requires
            self.wf(),
        ensures
            r@.len() == column@.len(),
            forall|i: int| 0 <= i < r@.len() ==> #[trigger] r@[i] == cell_code(self.values(), column@[i]),
    {
        encode(&self.names, column)
    }
}

/// Whether `names` are in strictly increasing alphabetical order.
pub open spec fn alphabetical(names: Seq<Seq<char>>) -> bool {
    forall|i: int, j: int| 0 <= i < j < names.len() ==> text::text_less(#[trigger] names[i], #[trigger] names[j])
}

/// Whether some cell of `column` that is not missing has the given key.
pub open spec fn occurs(column: Seq<Cell>, key: Seq<char>) -> bool {
    exists|i: int| 0 <= i < column.len() && !(#[trigger] column[i]).missing() && column[i].key() == key
}

/// An alphabetical list has no duplicates.
proof fn lemma_alphabetical_distinct(names: Seq<Seq<char>>)
    requires
        alphabetical(names),
    ensures
        names.no_duplicates(),
{
    assert forall|i: int, j: int| 0 <= i < names.len() && 0 <= j < names.len() && i != j implies names[i]
        != names[j] by {
        text::lemma_bytes_less_irreflexive(vstd::utf8::encode_utf8(names[i]));
        if i < j {
            assert(text::text_less(names[i], names[j]));
        } else {
            assert(text::text_less(names[j], names[i]));
        }
    }
}

/// Inserting a name after those before it and before the others keeps the order.
proof fn lemma_insert_alphabetical(names: Seq<Seq<char>>, at: int, key: Seq<char>)
    requires
        alphabetical(names),
        0 <= at <= names.len(),
        forall|q: int| 0 <= q < at ==> text::text_less(#[trigger] names[q], key),
        at < names.len() ==> text::text_less(key, names[at]),
    ensures
        alphabetical(names.insert(at, key)),
{
    let longer = names.insert(at, key);
    assert forall|i: int, j: int| 0 <= i < j < longer.len() implies text::text_less(
        #[trigger] longer[i],
        #[trigger] longer[j],
    ) by {
        if i == at {
            if j - 1 > at {
                assert(text::text_less(names[at], names[j - 1]));
                text::lemma_bytes_less_transitive(
                    vstd::utf8::encode_utf8(key),
                    vstd::utf8::encode_utf8(names[at]),
                    vstd::utf8::encode_utf8(names[j - 1]),
                );
            }
        } else if j == at {
            assert(longer[i] == names[i]);
        } else {
            let a = if i < at { i } else { i - 1 };
            let b = if j < at { j } else { j - 1 };
            assert(longer[i] == names[a] && longer[j] == names[b]);
        }
    }
}

/// Codes for class labels.
pub struct LabelEncoder {
    classes: Vec<String>,
}

impl LabelEncoder {
    /// The classes in the order of their codes.
    pub closed spec fn names(&self) -> Seq<Seq<char>> {
        texts(self.classes@)
    }

    /// The classes are listed alphabetically, and codes fit their type.
    pub open spec fn wf(&self) -> bool {
        alphabetical(self.names()) && self.names().len() <= i64::MAX
    }

    /// Numbers the labels that occur in `y` in alphabetical order.
    pub fn fit(y: &[Cell]) -> (r: Self)
        requires
            y@.len() <= i64::MAX,
        ensures
            r.wf(),
            forall|key: Seq<char>| r.names().contains(key) <==> occurs(y@, key),
    {
        let mut classes: Vec<String> = Vec::new();
        let mut i: usize = 0;
        while i < y.len()
            invariant
                i <= y@.len() <= i64::MAX,
                classes@.len() <= i,
                alphabetical(texts(classes@)),
                forall|key: Seq<char>|
                    texts(classes@).contains(key) <==> occurs(y@.subrange(0, i as int), key),
            decreases y@.len() - i,
        {
            let ghost before = texts(classes@);
            let ghost seen = y@.subrange(0, i as int);
            let ghost next = y@.subrange(0, i + 1);
            proof {
                assert(next.last() == y@[i as int]);
                assert forall|key: Seq<char>|
                    occurs(next, key) <==> (occurs(seen, key) || (!y@[i as int].missing() && y@[i as int].key()
                        == key)) by {
                    if occurs(next, key) {
                        let q = choose|q: int|
                            0 <= q < next.len() && !(#[trigger] next[q]).missing() && next[q].key() == key;
                        if q < i {
                            assert(seen[q] == next[q]);
                        }
                    }
                    if occurs(seen, key) {
                        let q = choose|q: int|
                            0 <= q < seen.len() && !(#[trigger] seen[q]).missing() && seen[q].key() == key;
                        assert(next[q] == seen[q]);
                    }
                    if !y@[i as int].missing() && y@[i as int].key() == key {
                        assert(next[i as int] == y@[i as int]);
                    }
                }
            }
            if !is_missing(&y[i]) {
                let key: String = value_key(&y[i]);
                let mut at: usize = 0;
                while at < classes.len() && text::less(classes[at].as_str(), key.as_str())
                    invariant
                        at <= classes@.len(),
                        before == texts(classes@),
                        forall|q: int| 0 <= q < at ==> text::text_less(#[trigger] before[q], key@),
                    decreases classes@.len() - at,
                {
                    assert(before[at as int] == classes@[at as int]@);
                    at += 1;
                }
                assert(at < classes@.len() ==> before[at as int] == classes@[at as int]@);
                if at == classes.len() || !text::same(classes[at].as_str(), key.as_str()) {
                    proof {
                        if at < before.len() {
                            text::lemma_text_less_total(before[at as int], key@);
                        }
                        lemma_insert_alphabetical(before, at as int, key@);
                    }
                    classes.insert(at, key);
                    assert(texts(classes@) =~= before.insert(at as int, key@));
                    proof {
                        lemma_insert_contains(before, at as int, key@);
                    }
                } else {
                    assert(before.contains(key@));
                }
                assert(y@[i as int].key() == key@);
                assert forall|k: Seq<char>| texts(classes@).contains(k) <==> occurs(next, k) by {
                    assert(before.contains(k) <==> occurs(seen, k));
                }
            } else {
                assert forall|k: Seq<char>| texts(classes@).contains(k) <==> occurs(next, k) by {
                    assert(before.contains(k) <==> occurs(seen, k));
                }
            }
            i += 1;
            assert(y@.subrange(0, i as int) == next);
        }
        assert(y@.subrange(0, i as int) =~= y@);
        LabelEncoder { classes }
    }

    /// The number of classes.
    pub fn n_classes(&self) -> (r: usize)
        ensures
            r == self.names().len(),
    {
        self.classes.len()
    }

    /// The codes of labels.
    pub fn transform(&self, y: &[Cell]) -> (r: Vec<i64>)
        requires
            self.wf(),
        ensures
            r@.len() == y@.len(),
            forall|i: int| 0 <= i < r@.len() ==> #[trigger] r@[i] == cell_code(self.names(), y@[i]),
    {
        proof {
            lemma_alphabetical_distinct(self.names());
        }
        encode(&self.classes, y)
    }

    /// The label of a code.
    pub fn decode(&self, code: usize) -> (r: &str)
        requires
            code < self.names().len(),
        ensures
            r@ == self.names()[code as int],
    {
        self.classes[code].as_str()
    }
}

/// Decoding the code of a label that the encoder was fitted to gives the label back.
pub proof fn law_label_round_trip(names: Seq<Seq<char>>, y: Seq<Cell>, i: int)
    requires
        alphabetical(names),
        forall|key: Seq<char>| names.contains(key) <==> occurs(y, key),
        0 <= i < y.len(),
        !y[i].missing(),
    ensures
        0 <= cell_code(names, y[i]) < names.len(),
        names[cell_code(names, y[i])] == y[i].key(),
{
    assert(occurs(y, y[i].key()));
}

/// The codes are the numbers below the class count, in the order of the labels: each is the code of
/// some label, and a greater code is that of a later label.
pub proof fn law_codes_are_in_order(names: Seq<Seq<char>>, y: Seq<Cell>, code: int)
    requires
        alphabetical(names),
        forall|key: Seq<char>| names.contains(key) <==> occurs(y, key),
        0 <= code < names.len(),
    ensures
        exists|i: int| 0 <= i < y.len() && !(#[trigger] y[i]).missing() && cell_code(names, y[i]) == code,
        forall|later: int| code < later < names.len() ==> text::text_less(names[code], #[trigger] names[later]),
{
    assert(names.contains(names[code]));
    let i = choose|i: int| 0 <= i < y.len() && !(#[trigger] y[i]).missing() && y[i].key() == names[code];
    law_label_round_trip(names, y, i);
    lemma_alphabetical_distinct(names);
}

/// The classes are determined by the labels that occur.
pub proof fn law_classes_unique(a: Seq<Seq<char>>, b: Seq<Seq<char>>)
    requires
        alphabetical(a),
        alphabetical(b),
        forall|key: Seq<char>| a.contains(key) <==> b.contains(key),
    ensures
        a == b,
    decreases a.len(),
{
    if a.len() == 0 {
        if b.len() > 0 {
            assert(b.contains(b[0]));
        }
        assert(a =~= b);
    } else {
        assert(a.contains(a.last()));
        assert(b.contains(a.last()));
        assert(b.contains(b.last()));
        assert(a.contains(b.last()));
        if a.last() != b.last() {
            let p = choose|p: int| 0 <= p < b.len() && b[p] == a.last();
            let q = choose|q: int| 0 <= q < a.len() && a[q] == b.last();
            assert(text::text_less(b[p], b[b.len() - 1]));
            assert(text::text_less(a[q], a[a.len() - 1]));
            text::lemma_bytes_less_transitive(
                vstd::utf8::encode_utf8(a.last()),
                vstd::utf8::encode_utf8(b.last()),
                vstd::utf8::encode_utf8(a.last()),
            );
            text::lemma_bytes_less_irreflexive(vstd::utf8::encode_utf8(a.last()));
        }
        lemma_alphabetical_distinct(a);
        lemma_alphabetical_distinct(b);
        let c = a.drop_last();
        let d = b.drop_last();
        assert forall|key: Seq<char>| c.contains(key) <==> d.contains(key) by {
            if c.contains(key) {
                let p = choose|p: int| 0 <= p < c.len() && c[p] == key;
                assert(a[p] == key && key != a.last());
                assert(b.contains(key));
                let q = choose|q: int| 0 <= q < b.len() && b[q] == key;
                assert(d[q] == key);
            }
            if d.contains(key) {
                let p = choose|p: int| 0 <= p < d.len() && d[p] == key;
                assert(b[p] == key && key != b.last());
                assert(a.contains(key));
                let q = choose|q: int| 0 <= q < a.len() && a[q] == key;
                assert(c[q] == key);
            }
        }
        law_classes_unique(c, d);
        assert(a =~= c.push(a.last()));
        assert(b =~= d.push(b.last()));
    }
}

proof fn lemma_insert_contains(names: Seq<Seq<char>>, at: int, key: Seq<char>)
    requires
        0 <= at <= names.len(),
    ensures
        forall|k: Seq<char>| names.insert(at, key).contains(k) <==> (names.contains(k) || k == key),
{
    let longer = names.insert(at, key);
    assert(longer[at] == key);
    assert forall|k: Seq<char>| longer.contains(k) <==> (names.contains(k) || k == key) by {
        if longer.contains(k) && k != key {
            let q = choose|q: int| 0 <= q < longer.len() && longer[q] == k;
            assert(names[if q < at { q } else { q - 1 }] == k);
        }
        if names.contains(k) {
            let q = choose|q: int| 0 <= q < names.len() && names[q] == k;
            assert(longer[if q < at { q } else { q + 1 }] == k);
        }
    }
}

/// What counts as missing: nothing, the empty text, and the three letters "nan" in any case.
pub proof fn law_what_is_missing(s: String, b: bool)
    ensures
        Cell::Null.missing(),
        s@.len() == 0 ==> Cell::Text(s).missing(),
        Cell::Text(s).missing() && s@.len() > 0 ==> s@.len() == 3 && (s@[0] == 'n' || s@[0] == 'N') && (s@[1] == 'a'
            || s@[1] == 'A') && (s@[2] == 'n' || s@[2] == 'N'),
        s@.len() == 3 && (s@[0] == 'n' || s@[0] == 'N') && (s@[1] == 'a' || s@[1] == 'A') && (s@[2] == 'n' || s@[2]
            == 'N') ==> Cell::Text(s).missing(),
        !Cell::Number(s).missing(),
        !Cell::Bool(b).missing(),
        !Cell::Other(s).missing(),
{
}

/// What a value is looked up by.
pub proof fn law_keys_of_values(s: String)
    ensures
        Cell::Null.key() == "null"@,
        Cell::Text(s).key() == s@,
        Cell::Number(s).key() == s@,
        Cell::Bool(true).key() == "true"@,
        Cell::Bool(false).key() == "false"@,
        Cell::Other(s).key() == s@,
{
}

/// Values are listed in the order in which they first appear, each once, and missing ones not at all.
pub proof fn law_values_as_they_appear(column: Seq<Cell>, v: Cell)
    ensures
        appearances(column).no_duplicates(),
        forall|key: Seq<char>| #[trigger] appearances(column).contains(key) <==> occurs(column, key),
        v.missing() || appearances(column).contains(v.key()) ==> appearances(column.push(v)) == appearances(column),
        !v.missing() && !appearances(column).contains(v.key()) ==> appearances(column.push(v)) == appearances(
            column,
        ).push(v.key()),
    decreases column.len(),
{
    assert(column.push(v).drop_last() =~= column);
    if column.len() > 0 {
        let rest = column.drop_last();
        let last = column.last();
        law_values_as_they_appear(rest, last);
        assert(rest.push(last) =~= column);
        assert forall|key: Seq<char>| #[trigger] appearances(column).contains(key) <==> occurs(column, key) by {
            let before = appearances(rest);
            assert(before.contains(key) <==> occurs(rest, key));
            if occurs(rest, key) {
                let i = choose|i: int| 0 <= i < rest.len() && !(#[trigger] rest[i]).missing() && rest[i].key() == key;
                assert(column[i] == rest[i]);
            }
            if occurs(column, key) {
                let i = choose|i: int|
                    0 <= i < column.len() && !(#[trigger] column[i]).missing() && column[i].key() == key;
                if i < rest.len() {
                    assert(rest[i] == column[i]);
                }
            }
            if !last.missing() {
                assert(column[column.len() - 1] == last);
                if !before.contains(last.key()) {
                    assert(before.push(last.key())[before.len() as int] == last.key());
                    if before.contains(key) {
                        let q = before.index_of(key);
                        assert(before.push(last.key())[q] == key);
                    }
                    if before.push(last.key()).contains(key) {
                        let q = before.push(last.key()).index_of(key);
                        assert(q < before.len() ==> before[q] == key);
                    }
                }
            }
        }
    }
}

/// A missing value and one that is not listed have no code; a listed one has its place.
pub proof fn law_codes_are_places(names: Seq<Seq<char>>, v: Cell, c: int)
    requires
        names.no_duplicates(),
    ensures
        v.missing() ==> cell_code(names, v) == -1,
        !names.contains(v.key()) ==> cell_code(names, v) == -1,
        0 <= c < names.len() && names[c] == v.key() && !v.missing() ==> cell_code(names, v) == c,
{
    if 0 <= c < names.len() {
        law_codes_decode(names, c);
    }
}

} // verus!
