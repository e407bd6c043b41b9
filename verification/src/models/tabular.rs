//! What the models of tables share: how columns are grouped, labels are looked up, missing cells are
//! filled and outputs are read.
//!
//! Cells are held as the bits of singles where their value matters.

use vstd::arithmetic::power2::pow2;
use vstd::prelude::*;

use crate::layout;

verus! {

/// The bits of the single one.
pub const ONE: u32 = 0x3f80_0000;

/// The bits of the single minus a thousand million.
pub const MASKED: u32 = 0xce6e_6b28;

/// The column that stands at place `k` of the group of column `g`: the one that lies a power of two
/// further, counted round the `h` columns.
pub open spec fn grouped_column(g: int, k: nat, h: int) -> int {
    (g + pow2(k)) % h
}

/// Cell `g` of a row: the columns of its group, and as many zeros where missing values are marked.
pub open spec fn group_cell<T>(row: Seq<T>, g: int, h: int, size: nat, marks: bool, zero: T) -> Seq<T> {
    let values = Seq::new(size, |k: int| row[grouped_column(g, k as nat, h)]);
    if marks {
        values + Seq::new(size, |k: int| zero)
    } else {
        values
    }
}

/// Cell `g` of a row.
pub fn feature_cell<T: Copy>(row: &[T], g: usize, size: usize, marks: bool, zero: T) -> (r: Vec<T>)
    requires
        g < row@.len(),
        row@.len() + pow2(size as nat) <= usize::MAX,
    ensures
        r@ == group_cell(row@, g as int, row@.len() as int, size as nat, marks, zero),
{
    let h: usize = row.len();
    let mut out: Vec<T> = Vec::new();
    let mut k: usize = 0;
    let mut step: usize = 1;
    proof {
        vstd::arithmetic::power2::lemma2_to64();
    }
    while k < size
        invariant
            k <= size,
            g < h,
            h == row@.len(),
            h + pow2(size as nat) <= usize::MAX,
            step == pow2(k as nat),
            out@.len() == k,
            forall|q: int| 0 <= q < k ==> #[trigger] out@[q] == row@[grouped_column(g as int, q as nat, h as int)],
        decreases size - k,
    {
        proof {
            vstd::arithmetic::power2::lemma_pow2_unfold((k + 1) as nat);
            if k + 1 < size {
                vstd::arithmetic::power2::lemma_pow2_strictly_increases((k + 1) as nat, size as nat);
            }
        }
        out.push(row[(g + step) % h]);
        step = 2 * step;
        k += 1;
    }
    if marks {
        let mut i: usize = 0;
        while i < size
            invariant
                i <= size,
                out@.len() == size + i,
                h == row@.len(),
                forall|q: int|
                    0 <= q < size ==> #[trigger] out@[q] == row@[grouped_column(g as int, q as nat, h as int)],
                forall|q: int| size <= q < out@.len() ==> #[trigger] out@[q] == zero,
            decreases size - i,
        {
            out.push(zero);
            i += 1;
        }
    }
    assert(out@ =~= group_cell(row@, g as int, h as int, size as nat, marks, zero));
    out
}

/// Every column stands in as many groups as a group has places: at place `k` in that of one column.
pub proof fn law_columns_in_groups(c: int, k: nat, h: int)
    requires
        0 <= c < h,
    ensures
        exists|g: int| 0 <= g < h && #[trigger] grouped_column(g, k, h) == c,
        forall|g1: int, g2: int|
            0 <= g1 < h && 0 <= g2 < h && #[trigger] grouped_column(g1, k, h) == #[trigger] grouped_column(g2, k, h)
                ==> g1 == g2,
{
    let p = pow2(k) as int;
    let g = (c - p) % h;
    vstd::arithmetic::div_mod::lemma_mod_bound(c - p, h);
    vstd::arithmetic::div_mod::lemma_add_mod_noop(c - p, p, h);
    vstd::arithmetic::div_mod::lemma_add_mod_noop(g, p, h);
    vstd::arithmetic::div_mod::lemma_mod_twice(c - p, h);
    vstd::arithmetic::div_mod::lemma_small_mod(c as nat, h as nat);
    assert(grouped_column(g, k, h) == c);
    assert forall|g1: int, g2: int|
        0 <= g1 < h && 0 <= g2 < h && #[trigger] grouped_column(g1, k, h) == #[trigger] grouped_column(
            g2,
            k,
            h,
        ) implies g1 == g2 by {
        vstd::arithmetic::div_mod::lemma_mod_equivalence(g1 + p, g2 + p, h);
        assert((g1 + p) - (g2 + p) == g1 - g2);
        vstd::arithmetic::div_mod::lemma_mod_equivalence(g1, g2, h);
        vstd::arithmetic::div_mod::lemma_small_mod(g1 as nat, h as nat);
        vstd::arithmetic::div_mod::lemma_small_mod(g2 as nat, h as nat);
    }
}

/// Whether all rows have a width.
pub open spec fn wide<T>(rows: Seq<Vec<T>>, h: int) -> bool {
    forall|i: int| 0 <= i < rows.len() ==> (#[trigger] rows[i])@.len() == h
}

/// The width of a cell.
pub open spec fn cell_width(size: int, marks: bool) -> int {
    if marks {
        2 * size
    } else {
        size
    }
}

/// The cells of a table, column after column, and in a column row after row.
pub open spec fn cells<T>(rows: Seq<Vec<T>>, h: int, size: nat, marks: bool, zero: T) -> Seq<T> {
    let w = cell_width(size as int, marks);
    Seq::new(
        (h * rows.len() * w) as nat,
        |q: int|
            group_cell(rows[(q / w) % rows.len() as int]@, (q / w) / rows.len() as int, h, size, marks, zero)[q % w],
    )
}

/// The cells of a table, column after column, and in a column row after row.
pub fn column_cells<T: Copy>(rows: &Vec<Vec<T>>, h: usize, size: usize, marks: bool, zero: T) -> (r: Vec<T>)
    requires
        wide(rows@, h as int),
        h + pow2(size as nat) <= usize::MAX,
    ensures
        r@ == cells(rows@, h as int, size as nat, marks, zero),
{
    let n: usize = rows.len();
    let ghost w = cell_width(size as int, marks);
    let mut out: Vec<T> = Vec::new();
    let mut c: usize = 0;
    assert(0 * n * w == 0) by (nonlinear_arith);
    while c < h
        invariant
            c <= h,
            n == rows@.len(),
            w == cell_width(size as int, marks),
            wide(rows@, h as int),
            h + pow2(size as nat) <= usize::MAX,
            out@.len() == c * n * w,
            forall|q: int|
                0 <= q < out@.len() ==> #[trigger] out@[q] == cells(rows@, h as int, size as nat, marks, zero)[q],
        decreases h - c,
    {
        let mut i: usize = 0;
        while i < n
            invariant
                c < h,
                i <= n,
                n == rows@.len(),
                w == cell_width(size as int, marks),
                wide(rows@, h as int),
                h + pow2(size as nat) <= usize::MAX,
                out@.len() == (c * n + i) * w,
                forall|q: int|
                    0 <= q < out@.len() ==> #[trigger] out@[q] == cells(rows@, h as int, size as nat, marks, zero)[q],
            decreases n - i,
        {
            assert(rows@[i as int]@.len() == h);
            let ghost had = out@;
            let mut cell: Vec<T> = feature_cell(rows[i].as_slice(), c, size, marks, zero);
            let ghost made = cell@;
            out.append(&mut cell);
            assert forall|q: int| 0 <= q < out@.len() implies #[trigger] out@[q] == cells(
                rows@,
                h as int,
                size as nat,
                marks,
                zero,
            )[q] by {
                if q >= had.len() {
                    let k = q - had.len();
                    layout::lemma_at3(c as int, i as int, k, n as int, w);
                    layout::lemma_at3_bound(c as int, i as int, k, h as int, n as int, w);
                    assert(out@[q] == made[k]);
                }
            }
            i += 1;
            assert((c * n + i) * w == (c * n + (i - 1)) * w + w) by (nonlinear_arith);
        }
        c += 1;
        assert(((c - 1) * n + n) * w == c * n * w) by (nonlinear_arith);
    }
    assert(out@ =~= cells(rows@, h as int, size as nat, marks, zero));
    out
}

/// The greatest label.
pub fn highest(labels: &[usize]) -> (r: Option<usize>)
    ensures
        match r {
            Some(m) => labels@.contains(m) && forall|i: int| 0 <= i < labels@.len() ==> #[trigger] labels@[i] <= m,
            None => labels@.len() == 0,
        },
{
    if labels.len() == 0 {
        return None;
    }
    let mut m: usize = labels[0];
    let mut i: usize = 1;
    assert(labels@[0] == m);
    while i < labels.len()
        invariant
            1 <= i <= labels@.len(),
            labels@.contains(m),
            forall|q: int| 0 <= q < i ==> #[trigger] labels@[q] <= m,
        decreases labels@.len() - i,
    {
        if labels[i] > m {
            m = labels[i];
            assert(labels@[i as int] == m);
        }
        i += 1;
    }
    Some(m)
}

/// Labels, one row for each, with a one at the label's place and zeros elsewhere.
pub open spec fn hot(labels: Seq<usize>, width: int) -> Seq<u32> {
    Seq::new(
        (labels.len() * width) as nat,
        |q: int|
            if q % width == labels[q / width] {
                ONE
            } else {
                0u32
            },
    )
}

/// Labels, one row for each, with a one at the label's place.
pub fn one_hot(labels: &[usize], width: usize) -> (r: Vec<u32>)
    requires
        forall|i: int| 0 <= i < labels@.len() ==> #[trigger] labels@[i] < width,
    ensures
        r@ == hot(labels@, width as int),
{
    let mut out: Vec<u32> = Vec::new();
    let mut i: usize = 0;
    assert(0 * width == 0) by (nonlinear_arith);
    while i < labels.len()
        invariant
            i <= labels@.len(),
            out@.len() == i * width,
            forall|q: int| 0 <= q < out@.len() ==> #[trigger] out@[q] == hot(labels@, width as int)[q],
        decreases labels@.len() - i,
    {
        let mut c: usize = 0;
        while c < width
            invariant
                i < labels@.len(),
                c <= width,
                out@.len() == i * width + c,
                forall|q: int| 0 <= q < out@.len() ==> #[trigger] out@[q] == hot(labels@, width as int)[q],
            decreases width - c,
        {
            proof {
                layout::lemma_at2(i as int, c as int, width as int);
                layout::lemma_at2_bound(i as int, c as int, labels@.len() as int, width as int);
            }
            out.push(if c == labels[i] { ONE } else { 0 });
            c += 1;
        }
        i += 1;
        assert((i - 1) * width + width == i * width) by (nonlinear_arith);
    }
    assert(out@ =~= hot(labels@, width as int));
    out
}

/// A label's row has its one at the label's place and nowhere else.
pub proof fn law_one_per_label(labels: Seq<usize>, width: int, i: int, c: int)
    requires
        0 <= i < labels.len(),
        0 <= c < width,
    ensures
        0 <= layout::at2(i, c, width) < hot(labels, width).len(),
        hot(labels, width)[layout::at2(i, c, width)] == ONE <==> c == labels[i],
        hot(labels, width)[layout::at2(i, c, width)] == 0 <==> c != labels[i],
{
    layout::lemma_at2(i, c, width);
    layout::lemma_at2_bound(i, c, labels.len() as int, width);
}

/// The rows of a table for labels, one behind the other; a label without a row gets `zero`s.
pub open spec fn looked_up<T>(table: Seq<T>, dim: int, labels: Seq<i64>, classes: int, zero: T) -> Seq<T> {
    Seq::new(
        (labels.len() * dim) as nat,
        |q: int|
            {
                let label = labels[q / dim];
                if 0 <= label < classes {
                    table[label * dim + q % dim]
                } else {
                    zero
                }
            },
    )
}

/// The rows of a table for labels, one behind the other; a label without a row gets `zero`s.
pub fn look_up<T: Copy>(table: &[T], dim: usize, labels: &[i64], classes: usize, zero: T) -> (r: Vec<T>)
    requires
        classes * dim <= table@.len(),
        classes <= i64::MAX,
    ensures
        r@ == looked_up(table@, dim as int, labels@, classes as int, zero),
{
    let len: usize = table.len();
    let mut out: Vec<T> = Vec::new();
    let mut i: usize = 0;
    assert(0 * dim == 0) by (nonlinear_arith);
    while i < labels.len()
        invariant
            i <= labels@.len(),
            classes * dim <= len == table@.len(),
            classes <= i64::MAX,
            out@.len() == i * dim,
            forall|q: int|
                0 <= q < out@.len() ==> #[trigger] out@[q] == looked_up(
                    table@,
                    dim as int,
                    labels@,
                    classes as int,
                    zero,
                )[q],
        decreases labels@.len() - i,
    {
        let label: i64 = labels[i];
        let known: bool = 0 <= label && label < classes as i64;
        let class: usize = if known { label as usize } else { 0 };
        let mut c: usize = 0;
        while c < dim
            invariant
                i < labels@.len(),
                c <= dim,
                classes * dim <= len == table@.len(),
                label == labels@[i as int],
                known == (0 <= label < classes),
                known ==> class == label,
                out@.len() == i * dim + c,
                forall|q: int|
                    0 <= q < out@.len() ==> #[trigger] out@[q] == looked_up(
                        table@,
                        dim as int,
                        labels@,
                        classes as int,
                        zero,
                    )[q],
            decreases dim - c,
        {
            proof {
                layout::lemma_at2(i as int, c as int, dim as int);
                layout::lemma_at2_bound(i as int, c as int, labels@.len() as int, dim as int);
                if known {
                    layout::lemma_at2_bound(class as int, c as int, classes as int, dim as int);
                    assert(class * dim >= 0) by (nonlinear_arith);
                }
            }
            if known {
                out.push(table[class * dim + c]);
            } else {
                out.push(zero);
            }
            c += 1;
        }
        i += 1;
        assert((i - 1) * dim + dim == i * dim) by (nonlinear_arith);
    }
    assert(out@ =~= looked_up(table@, dim as int, labels@, classes as int, zero));
    out
}

/// A row, `n` times.
pub fn repeat_row<T: Copy>(row: &[T], n: usize) -> (r: Vec<T>)
    ensures
        r@.len() == n * row@.len(),
        forall|q: int| 0 <= q < r@.len() ==> #[trigger] r@[q] == row@[q % row@.len() as int],
{
    let mut out: Vec<T> = Vec::new();
    let len: usize = row.len();
    let mut i: usize = 0;
    assert(0 * len == 0) by (nonlinear_arith);
    while i < n
        invariant
            i <= n,
            len == row@.len(),
            out@.len() == i * len,
            forall|q: int| 0 <= q < out@.len() ==> #[trigger] out@[q] == row@[q % len as int],
        decreases n - i,
    {
        let mut c: usize = 0;
        while c < len
            invariant
                c <= len == row@.len(),
                out@.len() == i * len + c,
                forall|q: int| 0 <= q < out@.len() ==> #[trigger] out@[q] == row@[q % len as int],
            decreases len - c,
        {
            proof {
                layout::lemma_at2(i as int, c as int, len as int);
            }
            out.push(row[c]);
            c += 1;
        }
        i += 1;
        assert((i - 1) * len + len == i * len) by (nonlinear_arith);
    }
    out
}

/// What is read of a matrix: of each of its first rows the `count` entries from `first` on.
pub fn read_rows<T: Copy>(flat: &[T], rows: usize, width: usize, first: usize, count: usize) -> (r: Vec<Vec<T>>)
    requires
        first + count <= width,
        rows * width <= flat@.len(),
    ensures
        r@.len() == rows,
        forall|i: int|
            0 <= i < rows ==> (#[trigger] r@[i])@ == flat@.subrange(i * width + first, i * width + first + count),
{
    let len: usize = flat.len();
    let mut out: Vec<Vec<T>> = Vec::new();
    let mut i: usize = 0;
    let mut at: usize = 0;
    assert(0 * width == 0) by (nonlinear_arith);
    while i < rows
        invariant
            i <= rows,
            first + count <= width,
            rows * width <= len == flat@.len(),
            at == i * width,
            out@.len() == i,
            forall|q: int|
                0 <= q < i ==> (#[trigger] out@[q])@ == flat@.subrange(q * width + first, q * width + first + count),
        decreases rows - i,
    {
        assert(i * width + width <= rows * width && (i + 1) * width == i * width + width) by (nonlinear_arith)
            requires
                i + 1 <= rows,
        ;
        let mut row: Vec<T> = Vec::new();
        let mut c: usize = 0;
        while c < count
            invariant
                c <= count,
                at + first + count <= len == flat@.len(),
                row@ == flat@.subrange(at + first, at + first + c),
            decreases count - c,
        {
            row.push(flat[at + first + c]);
            c += 1;
            assert(row@ =~= flat@.subrange(at + first, at + first + c));
        }
        out.push(row);
        at += width;
        i += 1;
    }
    out
}

/// The columns that are listed, in the order of the list.
pub open spec fn picked<T>(row: Seq<T>, columns: Seq<usize>) -> Seq<T> {
    columns.map_values(|c: usize| row[c as int])
}

/// The listed columns of all rows.
pub fn select_columns<T: Copy>(rows: &Vec<Vec<T>>, columns: &[usize]) -> (r: Vec<Vec<T>>)
    requires
        forall|i: int, c: int|
            0 <= i < rows@.len() && 0 <= c < columns@.len() ==> #[trigger] columns@[c] < (#[trigger] rows@[i])@.len(),
    ensures
        r@.len() == rows@.len(),
        forall|i: int| 0 <= i < r@.len() ==> (#[trigger] r@[i])@ == picked(rows@[i]@, columns@),
{
    let mut out: Vec<Vec<T>> = Vec::new();
    let mut i: usize = 0;
    while i < rows.len()
        invariant
            i <= rows@.len(),
            forall|i: int, c: int|
                0 <= i < rows@.len() && 0 <= c < columns@.len() ==> #[trigger] columns@[c] < (#[trigger] rows@[i])@.len(),
            out@.len() == i,
            forall|q: int| 0 <= q < i ==> (#[trigger] out@[q])@ == picked(rows@[q]@, columns@),
        decreases rows@.len() - i,
    {
        let mut row: Vec<T> = Vec::new();
        let mut c: usize = 0;
        while c < columns.len()
            invariant
                i < rows@.len(),
                c <= columns@.len(),
                forall|i: int, c: int|
                    0 <= i < rows@.len() && 0 <= c < columns@.len() ==> #[trigger] columns@[c] < (#[trigger] rows@[i])@.len(),
                row@ == picked(rows@[i as int]@, columns@.take(c as int)),
            decreases columns@.len() - c,
        {
            assert(columns@[c as int] < rows@[i as int]@.len());
            row.push(rows[i][columns[c]]);
            c += 1;
            assert(row@ =~= picked(rows@[i as int]@, columns@.take(c as int)));
        }
        assert(columns@.take(c as int) =~= columns@);
        out.push(row);
        i += 1;
    }
    out
}

/// The bits of a single without its sign.
pub open spec fn magnitude(b: u32) -> int {
    if b < 0x8000_0000 {
        b as int
    } else {
        b - 0x8000_0000
    }
}

/// Whether the bits are those of a single that is no number.
pub open spec fn missing(b: u32) -> bool {
    magnitude(b) > 0x7f80_0000
}

/// Whether the bits are those of a finite single.
pub open spec fn finite(b: u32) -> bool {
    magnitude(b) < 0x7f80_0000
}

/// The place of a number among all singles; both zeros have the same place.
pub open spec fn rank(b: u32) -> int {
    if b < 0x8000_0000 {
        magnitude(b)
    } else {
        -magnitude(b)
    }
}

/// Whether two singles are the same number; what is no number is the same as nothing.
pub open spec fn same(a: u32, b: u32) -> bool {
    !missing(a) && !missing(b) && rank(a) == rank(b)
}

/// Whether a single is less than another; what is no number compares with nothing.
pub open spec fn less(a: u32, b: u32) -> bool {
    !missing(a) && !missing(b) && rank(a) < rank(b)
}

fn size_of(b: u32) -> (r: u32)
    ensures
        r == magnitude(b),
{
    if b < 0x8000_0000 {
        b
    } else {
        b - 0x8000_0000
    }
}

/// Whether a cell is missing.
pub fn is_missing(b: u32) -> (r: bool)
    ensures
        r == missing(b),
{
    size_of(b) > 0x7f80_0000
}

fn is_same(a: u32, b: u32) -> (r: bool)
    ensures
        r == same(a, b),
{
    let (x, y): (u32, u32) = (size_of(a), size_of(b));
    if x > 0x7f80_0000 || y > 0x7f80_0000 {
        false
    } else if (a < 0x8000_0000) == (b < 0x8000_0000) {
        x == y
    } else {
        x == 0 && y == 0
    }
}

fn is_less(a: u32, b: u32) -> (r: bool)
    ensures
        r == less(a, b),
{
    let (x, y): (u32, u32) = (size_of(a), size_of(b));
    if x > 0x7f80_0000 || y > 0x7f80_0000 {
        false
    } else if a < 0x8000_0000 {
        b < 0x8000_0000 && x < y
    } else if b < 0x8000_0000 {
        x > 0 || y > 0
    } else {
        y < x
    }
}

/// The columns' cells that are there.
pub fn present(rows: &Vec<Vec<u32>>, column: usize, n: usize) -> (r: Vec<u32>)
    requires
        n <= rows@.len(),
        forall|i: int| 0 <= i < n ==> column < (#[trigger] rows@[i])@.len(),
    ensures
        r@ == column_of(rows@, column as int).take(n as int).filter(|b: u32| !missing(b)),
{
    let ghost col = column_of(rows@, column as int);
    let ghost keep = |b: u32| !missing(b);
    let mut out: Vec<u32> = Vec::new();
    let mut i: usize = 0;
    assert(out@ =~= col.take(0).filter(keep)) by {
        reveal(Seq::filter);
    }
    while i < n
        invariant
            i <= n <= rows@.len(),
            forall|i: int| 0 <= i < n ==> column < (#[trigger] rows@[i])@.len(),
            col == column_of(rows@, column as int),
            keep == (|b: u32| !missing(b)),
            out@ == col.take(i as int).filter(keep),
        decreases n - i,
    {
        let b: u32 = rows[i][column];
        if !is_missing(b) {
            out.push(b);
        }
        assert(col.take(i + 1).drop_last() =~= col.take(i as int));
        assert(col.take(i + 1).last() == b);
        i += 1;
        assert(out@ == col.take(i as int).filter(keep)) by {
            reveal(Seq::filter);
        }
    }
    out
}

/// A column of a table.
pub open spec fn column_of(rows: Seq<Vec<u32>>, column: int) -> Seq<u32> {
    rows.map_values(|row: Vec<u32>| row@[column])
}

/// A row with its missing cells filled.
pub open spec fn filled(row: Seq<u32>, fill: Seq<u32>) -> Seq<u32> {
    Seq::new(
        row.len(),
        |f: int|
            if missing(row[f]) {
                fill[f]
            } else {
                row[f]
            },
    )
}

/// A row with its missing cells filled.
pub fn impute(row: &[u32], fill: &[u32]) -> (r: Vec<u32>)
    requires
        row@.len() <= fill@.len(),
    ensures
        r@ == filled(row@, fill@),
{
    let mut out: Vec<u32> = Vec::new();
    let mut f: usize = 0;
    while f < row.len()
        invariant
            f <= row@.len() <= fill@.len(),
            out@ == filled(row@, fill@).take(f as int),
        decreases row@.len() - f,
    {
        out.push(if is_missing(row[f]) { fill[f] } else { row[f] });
        f += 1;
        assert(out@ =~= filled(row@, fill@).take(f as int));
    }
    assert(out@ =~= filled(row@, fill@));
    out
}

/// Filling with what is there leaves nothing missing, and filling again changes nothing.
pub proof fn law_filled_once(row: Seq<u32>, fill: Seq<u32>)
    requires
        row.len() <= fill.len(),
        forall|f: int| 0 <= f < fill.len() ==> !missing(#[trigger] fill[f]),
    ensures
        forall|f: int| 0 <= f < row.len() ==> !missing(#[trigger] filled(row, fill)[f]),
        filled(filled(row, fill), fill) == filled(row, fill),
{
    assert(filled(filled(row, fill), fill) =~= filled(row, fill));
}

/// Whether a column holds more than one value.
pub open spec fn varies(rows: Seq<Vec<u32>>, f: int) -> bool {
    exists|i: int| 0 <= i < rows.len() && !same(#[trigger] column_of(rows, f)[i], column_of(rows, f)[0])
}

fn column_varies(rows: &Vec<Vec<u32>>, f: usize) -> (r: bool)
    requires
        rows@.len() > 0,
        forall|i: int| 0 <= i < rows@.len() ==> f < (#[trigger] rows@[i])@.len(),
    ensures
        r == varies(rows@, f as int),
{
    let first: u32 = rows[0][f];
    assert(first == column_of(rows@, f as int)[0]);
    let mut i: usize = 0;
    while i < rows.len()
        invariant
            i <= rows@.len(),
            rows@.len() > 0,
            first == column_of(rows@, f as int)[0],
            forall|i: int| 0 <= i < rows@.len() ==> f < (#[trigger] rows@[i])@.len(),
            forall|q: int| 0 <= q < i ==> same(#[trigger] column_of(rows@, f as int)[q], first),
        decreases rows@.len() - i,
    {
        assert(rows@[i as int]@.len() > f);
        if !is_same(rows[i][f], first) {
            assert(!same(column_of(rows@, f as int)[i as int], first));
            return true;
        }
        assert(same(column_of(rows@, f as int)[i as int], first));
        i += 1;
    }
    false
}

/// The columns that hold more than one value, in order.
pub fn kept_columns(rows: &Vec<Vec<u32>>, n_feat: usize) -> (r: Vec<usize>)
    requires
        rows@.len() > 0,
        wide(rows@, n_feat as int),
    ensures
        forall|f: usize| #[trigger] r@.contains(f) <==> f < n_feat && varies(rows@, f as int),
        forall|i: int, j: int| 0 <= i < j < r@.len() ==> #[trigger] r@[i] < #[trigger] r@[j],
{
    let mut out: Vec<usize> = Vec::new();
    let mut f: usize = 0;
    while f < n_feat
        invariant
            f <= n_feat,
            rows@.len() > 0,
            wide(rows@, n_feat as int),
            forall|c: usize| #[trigger] out@.contains(c) <==> c < f && varies(rows@, c as int),
            forall|i: int, j: int| 0 <= i < j < out@.len() ==> #[trigger] out@[i] < #[trigger] out@[j],
        decreases n_feat - f,
    {
        assert forall|i: int| 0 <= i < rows@.len() implies f < (#[trigger] rows@[i])@.len() by {}
        let ghost had = out@;
        if column_varies(rows, f) {
            assert forall|i: int| 0 <= i < had.len() implies #[trigger] had[i] < f by {
                assert(had.contains(had[i]));
            }
            out.push(f);
            assert(out@[had.len() as int] == f);
            assert forall|c: usize| #[trigger] out@.contains(c) <==> c < f + 1 && varies(rows@, c as int) by {
                if c != f {
                    if had.contains(c) {
                        let i = choose|i: int| 0 <= i < had.len() && had[i] == c;
                        assert(out@[i] == c);
                    }
                    if out@.contains(c) {
                        let i = choose|i: int| 0 <= i < out@.len() && out@[i] == c;
                        assert(had[i] == c);
                    }
                }
            }
        }
        f += 1;
    }
    out
}

/// Whether boundaries go up.
pub open spec fn ascending(boundaries: Seq<u32>) -> bool {
    &&& forall|i: int| 0 <= i < boundaries.len() ==> !missing(#[trigger] boundaries[i])
    &&& forall|i: int, j: int|
        0 <= i < j < boundaries.len() ==> rank(#[trigger] boundaries[i]) <= rank(#[trigger] boundaries[j])
}

/// The bucket of a value: the number of boundaries that lie below it.
pub fn bucket(boundaries: &[u32], v: u32) -> (r: usize)
    requires
        ascending(boundaries@),
    ensures
        r <= boundaries@.len(),
        forall|i: int| 0 <= i < r ==> less(#[trigger] boundaries@[i], v),
        forall|i: int| r <= i < boundaries@.len() ==> !less(#[trigger] boundaries@[i], v),
{
    let mut low: usize = 0;
    let mut high: usize = boundaries.len();
    while low < high
        invariant
            low <= high <= boundaries@.len(),
            ascending(boundaries@),
            forall|i: int| 0 <= i < low ==> less(#[trigger] boundaries@[i], v),
            forall|i: int| high <= i < boundaries@.len() ==> !less(#[trigger] boundaries@[i], v),
        decreases high - low,
    {
        let mid: usize = low + (high - low) / 2;
        if is_less(boundaries[mid], v) {
            assert forall|i: int| 0 <= i < mid + 1 implies less(#[trigger] boundaries@[i], v) by {
                if i < mid {
                    assert(rank(boundaries@[i]) <= rank(boundaries@[mid as int]));
                }
            }
            low = mid + 1;
        } else {
            assert forall|i: int| mid <= i < boundaries@.len() implies !less(#[trigger] boundaries@[i], v) by {
                if i > mid {
                    assert(rank(boundaries@[mid as int]) <= rank(boundaries@[i]));
                }
            }
            high = mid;
        }
    }
    low
}

/// A greater value is in no earlier bucket.
pub proof fn law_buckets_ascend(boundaries: Seq<u32>, v: u32, w: u32, r: int, s: int)
    requires
        !missing(v),
        !missing(w),
        rank(v) <= rank(w),
        0 <= r <= boundaries.len(),
        0 <= s <= boundaries.len(),
        forall|i: int| 0 <= i < r ==> less(#[trigger] boundaries[i], v),
        forall|i: int| r <= i < boundaries.len() ==> !less(#[trigger] boundaries[i], v),
        forall|i: int| 0 <= i < s ==> less(#[trigger] boundaries[i], w),
        forall|i: int| s <= i < boundaries.len() ==> !less(#[trigger] boundaries[i], w),
    ensures
        r <= s,
{
    if s < r {
        assert(less(boundaries[s], v));
        assert(!less(boundaries[s], w));
    }
}

/// A row cut or widened to a width.
pub open spec fn resized<T>(row: Seq<T>, width: nat, zero: T) -> Seq<T> {
    Seq::new(
        width,
        |f: int|
            if f < row.len() {
                row[f]
            } else {
                zero
            },
    )
}

/// A row cut or widened to a width.
pub fn resize_row<T: Copy>(row: &[T], width: usize, zero: T) -> (r: Vec<T>)
    ensures
        r@ == resized(row@, width as nat, zero),
{
    let mut out: Vec<T> = Vec::new();
    let mut f: usize = 0;
    while f < width
        invariant
            f <= width,
            out@ == resized(row@, width as nat, zero).take(f as int),
        decreases width - f,
    {
        out.push(if f < row.len() { row[f] } else { zero });
        f += 1;
        assert(out@ =~= resized(row@, width as nat, zero).take(f as int));
    }
    assert(out@ =~= resized(row@, width as nat, zero));
    out
}

/// A row with zeros for what is not finite.
pub open spec fn cleared(row: Seq<u32>) -> Seq<u32> {
    row.map_values(
        |b: u32|
            if finite(b) {
                b
            } else {
                0u32
            },
    )
}

/// A row with zeros for what is not finite.
pub fn clear_row(row: &[u32]) -> (r: Vec<u32>)
    ensures
        r@ == cleared(row@),
{
    let mut out: Vec<u32> = Vec::new();
    let mut f: usize = 0;
    while f < row.len()
        invariant
            f <= row@.len(),
            out@ == cleared(row@).take(f as int),
        decreases row@.len() - f,
    {
        out.push(if size_of(row[f]) < 0x7f80_0000 { row[f] } else { 0 });
        f += 1;
        assert(out@ =~= cleared(row@).take(f as int));
    }
    assert(out@ =~= cleared(row@));
    out
}

/// What is added to the scores of keys: nothing for the valid ones, which come first, and so much
/// for the others that they do not count.
pub fn key_mask(seq_len: usize, valid_len: usize) -> (r: Vec<u32>)
    ensures
        r@ == Seq::new(
            seq_len as nat,
            |i: int|
                if i < valid_len {
                    0u32
                } else {
                    MASKED
                },
        ),
{
    let mut out: Vec<u32> = Vec::new();
    while out.len() < seq_len
        invariant
            out@.len() <= seq_len,
            forall|i: int|
                0 <= i < out@.len() ==> #[trigger] out@[i] == (if i < valid_len {
                    0u32
                } else {
                    MASKED
                }),
        decreases seq_len - out@.len(),
    {
        let i: usize = out.len();
        out.push(if i < valid_len { 0 } else { MASKED });
    }
    assert(out@ =~= Seq::new(
        seq_len as nat,
        |i: int|
            if i < valid_len {
                0u32
            } else {
                MASKED
            },
    ));
    out
}

/// A column is kept exactly where its cells are not all the same number: where two of its rows, or a
/// cell that is no number and itself, are not the same.
pub proof fn law_kept_columns_differ_somewhere(rows: Seq<Vec<u32>>, f: int)
    requires
        rows.len() > 0,
    ensures
        varies(rows, f) <==> exists|i: int, j: int|
            0 <= i < rows.len() && 0 <= j < rows.len() && !same(#[trigger] rows[i]@[f], #[trigger] rows[j]@[f]),
{
    let col = column_of(rows, f);
    assert forall|i: int| 0 <= i < rows.len() implies #[trigger] col[i] == rows[i]@[f] by {}
    if varies(rows, f) {
        let i = choose|i: int| 0 <= i < rows.len() && !same(#[trigger] column_of(rows, f)[i], column_of(rows, f)[0]);
        assert(!same(rows[i]@[f], rows[0]@[f]));
    }
    if exists|i: int, j: int|
        0 <= i < rows.len() && 0 <= j < rows.len() && !same(#[trigger] rows[i]@[f], #[trigger] rows[j]@[f]) {
        let (i, j) = choose|i: int, j: int|
            0 <= i < rows.len() && 0 <= j < rows.len() && !same(#[trigger] rows[i]@[f], #[trigger] rows[j]@[f]);
        assert(!same(col[i], col[0]) || !same(col[j], col[0]));
    }
}

/// Singles are the same number where they have the same bits or are the two zeros, and are numbers.
pub proof fn law_same_numbers(a: u32, b: u32)
    ensures
        same(a, b) <==> {
            &&& a % 0x8000_0000 <= 0x7f80_0000
            &&& b % 0x8000_0000 <= 0x7f80_0000
            &&& a == b || (a % 0x8000_0000 == 0 && b % 0x8000_0000 == 0)
        },
{
}

/// The columns of a group lie one, two, four and so on behind the group's own, going round.
pub proof fn law_groups_double(g: int, k: nat, h: int)
    requires
        0 <= g < h,
    ensures
        grouped_column(g, 0, h) == (g + 1) % h,
        grouped_column(g, 1, h) == (g + 2) % h,
        grouped_column(g, 2, h) == (g + 4) % h,
        grouped_column(g, k + 1, h) == (grouped_column(g, k, h) + pow2(k)) % h,
{
    vstd::arithmetic::power2::lemma2_to64();
    vstd::arithmetic::power2::lemma_pow2_unfold(k + 1);
    vstd::arithmetic::div_mod::lemma_add_mod_noop(g + pow2(k), pow2(k) as int, h);
    vstd::arithmetic::div_mod::lemma_add_mod_noop((g + pow2(k)) % h, pow2(k) as int, h);
    vstd::arithmetic::div_mod::lemma_mod_twice(g + pow2(k), h);
}

/// The cells go group after group and row after row; a cell holds the row's values in the group's
/// columns, and then as many zeros where marks are asked for.
pub proof fn law_cells_hold_grouped_values<T>(
    rows: Seq<Vec<T>>,
    h: int,
    size: nat,
    marks: bool,
    zero: T,
    g: int,
    r: int,
    k: int,
)
    requires
        0 <= g < h,
        0 <= r < rows.len(),
        0 <= k < size,
    ensures
        !marks ==> cells(rows, h, size, marks, zero)[(g * rows.len() + r) * size + k] == rows[r]@[(g + pow2(k as nat))
            % h],
        marks ==> cells(rows, h, size, marks, zero)[(g * rows.len() + r) * (2 * size) + k] == rows[r]@[(g + pow2(
            k as nat,
        )) % h],
        marks ==> cells(rows, h, size, marks, zero)[(g * rows.len() + r) * (2 * size) + size + k] == zero,
{
    let n = rows.len() as int;
    if marks {
        let w = 2 * size as int;
        layout::lemma_at3(g, r, k, n, w);
        layout::lemma_at3_bound(g, r, k, h, n, w);
        layout::lemma_at3(g, r, size + k, n, w);
        layout::lemma_at3_bound(g, r, size + k, h, n, w);
    } else {
        let w = size as int;
        layout::lemma_at3(g, r, k, n, w);
        layout::lemma_at3_bound(g, r, k, h, n, w);
    }
}

/// A label's row holds a one in the label's place, and zeros.
pub proof fn law_ones_mark_labels(labels: Seq<usize>, width: int, i: int, c: int)
    requires
        0 <= i < labels.len(),
        0 <= c < width,
    ensures
        hot(labels, width).len() == labels.len() * width,
        c == labels[i] ==> hot(labels, width)[i * width + c] == 0x3f80_0000u32,
        c != labels[i] ==> hot(labels, width)[i * width + c] == 0,
{
    layout::lemma_at2(i, c, width);
    layout::lemma_at2_bound(i, c, labels.len() as int, width);
}

/// A label's row is the table's row for it; a label that the table does not have gives zeros.
pub proof fn law_labels_are_looked_up<T>(table: Seq<T>, dim: int, labels: Seq<i64>, classes: int, zero: T, i: int, c: int)
    requires
        0 <= i < labels.len(),
        0 <= c < dim,
    ensures
        looked_up(table, dim, labels, classes, zero).len() == labels.len() * dim,
        0 <= labels[i] < classes ==> looked_up(table, dim, labels, classes, zero)[i * dim + c] == table[labels[i] * dim
            + c],
        labels[i] < 0 || labels[i] >= classes ==> looked_up(table, dim, labels, classes, zero)[i * dim + c] == zero,
{
    layout::lemma_at2(i, c, dim);
    layout::lemma_at2_bound(i, c, labels.len() as int, dim);
}

/// The picked columns come in the order in which they are picked.
pub proof fn law_columns_are_picked<T>(row: Seq<T>, columns: Seq<usize>, i: int)
    requires
        0 <= i < columns.len(),
    ensures
        picked(row, columns).len() == columns.len(),
        picked(row, columns)[i] == row[columns[i] as int],
{
}

/// A single is no number where its bits, but for the sign, are greater than those of infinity, and
/// finite where they are less.
pub proof fn law_kinds_of_singles(b: u32)
    ensures
        missing(b) <==> b % 0x8000_0000 > 0x7f80_0000,
        finite(b) <==> b % 0x8000_0000 < 0x7f80_0000,
{
}

/// Singles are ordered as their bits where both are positive, and the other way round where both are
/// negative; a negative one is less than a positive one, but for the zeros. What is no number is not
/// less than anything, nor is anything less than it.
pub proof fn law_less_singles(a: u32, b: u32)
    ensures
        a % 0x8000_0000 > 0x7f80_0000 || b % 0x8000_0000 > 0x7f80_0000 ==> !less(a, b),
        a <= 0x7f80_0000 && b <= 0x7f80_0000 ==> (less(a, b) <==> a < b),
        0x8000_0000 <= a <= 0xff80_0000 && 0x8000_0000 <= b <= 0xff80_0000 ==> (less(a, b) <==> b < a),
        0x8000_0000 <= a <= 0xff80_0000 && b <= 0x7f80_0000 ==> (less(a, b) <==> a != 0x8000_0000 || b != 0),
        a <= 0x7f80_0000 && 0x8000_0000 <= b <= 0xff80_0000 ==> !less(a, b),
{
}

/// Only what is missing is filled.
pub proof fn law_only_missing_is_filled(row: Seq<u32>, fill: Seq<u32>, f: int)
    requires
        0 <= f < row.len(),
    ensures
        filled(row, fill).len() == row.len(),
        row[f] % 0x8000_0000 > 0x7f80_0000 ==> filled(row, fill)[f] == fill[f],
        row[f] % 0x8000_0000 <= 0x7f80_0000 ==> filled(row, fill)[f] == row[f],
{
}

/// A column is read row by row.
pub proof fn law_columns_are_read(rows: Seq<Vec<u32>>, column: int, i: int)
    requires
        0 <= i < rows.len(),
    ensures
        column_of(rows, column).len() == rows.len(),
        column_of(rows, column)[i] == rows[i]@[column],
{
}

/// A row that is too short ends in zeros, and one that is too long is cut.
pub proof fn law_rows_are_resized<T>(row: Seq<T>, width: nat, zero: T, f: int)
    requires
        0 <= f < width,
    ensures
        resized(row, width, zero).len() == width,
        f < row.len() ==> resized(row, width, zero)[f] == row[f],
        f >= row.len() ==> resized(row, width, zero)[f] == zero,
        width <= row.len() ==> resized(row, width, zero) == row.take(width as int),
{
    if width <= row.len() {
        assert(resized(row, width, zero) =~= row.take(width as int));
    }
}

/// What is not finite becomes zero, and what is finite stays.
pub proof fn law_only_finite_stays(row: Seq<u32>, f: int)
    requires
        0 <= f < row.len(),
    ensures
        cleared(row).len() == row.len(),
        row[f] % 0x8000_0000 < 0x7f80_0000 ==> cleared(row)[f] == row[f],
        row[f] % 0x8000_0000 >= 0x7f80_0000 ==> cleared(row)[f] == 0,
{
}

/// The bits of the numbers that marks and masks are made of: one, and minus a thousand million.
pub proof fn law_marks()
    ensures
        ONE == 0x3f80_0000u32,
        MASKED == 0xce6e_6b28u32,
{
}

} // verus!
