//! Tables in Markdown.

use vstd::prelude::*;

verus! {

/// What the strings of a row hold.
pub open spec fn texts(row: Seq<String>) -> Seq<Seq<char>> {
    row.map_values(|s: String| s@)
}

/// What the strings of rows hold.
pub open spec fn row_texts(rows: Seq<Vec<String>>) -> Seq<Seq<Seq<char>>> {
    rows.map_values(|r: Vec<String>| texts(r@))
}

/// The parts with a separator between each two.
pub open spec fn joined(parts: Seq<Seq<char>>, sep: Seq<char>) -> Seq<char>
    decreases parts.len(),
{
    if parts.len() == 0 {
        Seq::empty()
    } else if parts.len() == 1 {
        parts[0]
    } else {
        joined(parts.drop_last(), sep) + sep + parts.last()
    }
}

/// The marks under the headers: the first column stands on the left, the others on the right.
pub open spec fn marks(n: nat) -> Seq<Seq<char>> {
    Seq::new(n, |i: int| if i == 0 { ":---"@ } else { "---:"@ })
}

/// A row.
pub open spec fn row_text(row: Seq<Seq<char>>) -> Seq<char> {
    "| "@ + joined(row, " | "@) + " |\n"@
}

/// The first `n` rows.
pub open spec fn rows_text(rows: Seq<Seq<Seq<char>>>, n: nat) -> Seq<char>
    decreases n,
{
    if n == 0 {
        Seq::empty()
    } else {
        rows_text(rows, (n - 1) as nat) + row_text(rows[n - 1])
    }
}

/// A table.
pub open spec fn table_text(headers: Seq<Seq<char>>, rows: Seq<Seq<Seq<char>>>) -> Seq<char> {
    row_text(headers) + row_text(marks(headers.len())) + rows_text(rows, rows.len())
}

/// The parts with a separator between each two.
pub fn join(parts: &Vec<String>, sep: &str) -> (r: String)
    ensures
        r@ == joined(texts(parts@), sep@),
{
    let mut out = String::new();
    let mut i: usize = 0;
    let ghost all = texts(parts@);
    assert(out@ =~= joined(all.take(0), sep@));
    while i < parts.len()
        invariant
            i <= parts@.len(),
            all == texts(parts@),
            out@ == joined(all.take(i as int), sep@),
        decreases parts@.len() - i,
    {
        let ghost next = all.take(i + 1);
        assert(next.drop_last() =~= all.take(i as int));
        assert(next.last() == parts@[i as int]@);
        if i > 0 {
            out.append(sep);
        }
        out.append(parts[i].as_str());
        i += 1;
        assert(out@ =~= joined(next, sep@));
    }
    assert(all.take(i as int) =~= all);
    out
}

fn push_row(out: &mut String, row: &Vec<String>)
    ensures
        final(out)@ == old(out)@ + row_text(texts(row@)),
{
    out.append("| ");
    let cells: String = join(row, " | ");
    out.append(cells.as_str());
    out.append(" |\n");
    assert(out@ =~= old(out)@ + row_text(texts(row@)));
}

/// A table.
pub fn md_table(headers: &Vec<String>, rows: &Vec<Vec<String>>) -> (r: String)
    ensures
        r@ == table_text(texts(headers@), row_texts(rows@)),
{
    let mut out = String::new();
    push_row(&mut out, headers);
    let mut dashes: Vec<String> = Vec::new();
    while dashes.len() < headers.len()
        invariant
            dashes@.len() <= headers@.len(),
            forall|i: int|
                0 <= i < dashes@.len() ==> (#[trigger] dashes@[i])@ == (if i == 0 {
                    ":---"@
                } else {
                    "---:"@
                }),
        decreases headers@.len() - dashes@.len(),
    {
        let mark: &str = if dashes.len() == 0 {
            ":---"
        } else {
            "---:"
        };
        dashes.push(mark.to_string());
    }
    assert(texts(dashes@) =~= marks(headers@.len()));
    push_row(&mut out, &dashes);
    let ghost head = out@;
    let ghost all = row_texts(rows@);
    assert(head =~= row_text(texts(headers@)) + row_text(marks(headers@.len())));
    let mut i: usize = 0;
    assert(out@ =~= head + rows_text(all, 0));
    while i < rows.len()
        invariant
            i <= rows@.len(),
            all == row_texts(rows@),
            out@ == head + rows_text(all, i as nat),
        decreases rows@.len() - i,
    {
        assert(all[i as int] == texts(rows@[i as int]@));
        push_row(&mut out, &rows[i]);
        i += 1;
        assert(out@ =~= head + rows_text(all, i as nat));
    }
    out
}

/// A list of one more string.
pub fn push_text(out: &mut Vec<String>, s: &str)
    ensures
        texts(final(out)@) == texts(old(out)@).push(s@),
{
    out.push(s.to_string());
    assert(texts(out@) =~= texts(old(out)@).push(s@));
}

/// Parts are put together with the separator between them, and nowhere else.
pub proof fn law_separators_stand_between(parts: Seq<Seq<char>>, part: Seq<char>, sep: Seq<char>)
    ensures
        joined(Seq::empty(), sep) == Seq::<char>::empty(),
        joined(seq![part], sep) == part,
        parts.len() > 0 ==> joined(parts.push(part), sep) == joined(parts, sep) + sep + part,
{
    if parts.len() > 0 {
        assert(parts.push(part).drop_last() =~= parts);
    }
}

proof fn lemma_rows_of_first(a: Seq<Seq<Seq<char>>>, b: Seq<Seq<Seq<char>>>, n: nat)
    requires
        n <= a.len(),
        n <= b.len(),
        forall|i: int| 0 <= i < n ==> a[i] == b[i],
    ensures
        rows_text(a, n) == rows_text(b, n),
    decreases n,
{
    if n > 0 {
        lemma_rows_of_first(a, b, (n - 1) as nat);
    }
}

/// A table is its headers, a line of marks and its rows, each between bars on a line of its own. The
/// first column stands to the left and the others to the right.
pub proof fn law_tables_are_lines(headers: Seq<Seq<char>>, rows: Seq<Seq<Seq<char>>>, row: Seq<Seq<char>>, i: int)
    ensures
        row_text(row) == "| "@ + joined(row, " | "@) + " |\n"@,
        table_text(headers, Seq::empty()) == row_text(headers) + row_text(marks(headers.len())),
        table_text(headers, rows.push(row)) == table_text(headers, rows) + row_text(row),
        marks(headers.len()).len() == headers.len(),
        0 < headers.len() ==> marks(headers.len())[0] == ":---"@,
        0 < i < headers.len() ==> marks(headers.len())[i] == "---:"@,
{
    let none = Seq::<Seq<Seq<char>>>::empty();
    assert(rows_text(none, 0) =~= Seq::empty());
    assert(table_text(headers, none) =~= row_text(headers) + row_text(marks(headers.len())));
    lemma_rows_of_first(rows, rows.push(row), rows.len());
    assert(table_text(headers, rows.push(row)) =~= table_text(headers, rows) + row_text(row));
}

} // verus!
