//! TabFM's inference: its configuration, the checks on a batch of tables and how its cells are laid
//! out.

use vstd::arithmetic::power2::pow2;
use vstd::prelude::*;

use crate::models::tabfm::TabFMConfig;

verus! {

/// How the model is run.
#[derive(Debug, Clone, Copy)]
pub struct InferConfig {
    pub embed_dim: usize,
    pub max_classes: usize,
    pub col_num_blocks: usize,
    pub col_nhead: usize,
    pub col_num_inds: usize,
    pub row_num_blocks: usize,
    pub row_nhead: usize,
    pub row_num_cls: usize,
    pub icl_num_blocks: usize,
    pub icl_nhead: usize,
    pub ff_factor: usize,
    pub feature_group_size: usize,
    pub num_freq: usize,
    /// Held as the bits of a double.
    pub norm_eps: u64,
    pub is_classifier: bool,
    /// Width of the decoder, where it is not twice the row's representation.
    pub decoder_hidden: Option<usize>,
}

/// How the model is run by a configuration.
pub open spec fn run_by(c: TabFMConfig) -> InferConfig {
    InferConfig {
        embed_dim: c.embed_dim as usize,
        max_classes: c.max_classes as usize,
        col_num_blocks: c.col_num_blocks as usize,
        col_nhead: c.col_nhead as usize,
        col_num_inds: c.col_num_inds as usize,
        row_num_blocks: c.row_num_blocks as usize,
        row_nhead: c.row_nhead as usize,
        row_num_cls: c.row_num_cls as usize,
        icl_num_blocks: c.icl_num_blocks as usize,
        icl_nhead: c.icl_nhead as usize,
        ff_factor: c.ff_factor as usize,
        feature_group_size: c.feature_group_size as usize,
        num_freq: c.num_freq as usize,
        norm_eps: c.norm_eps,
        is_classifier: c.is_classifier,
        decoder_hidden: match c.decoder_hidden {
            Some(v) => Some(v as usize),
            None => None,
        },
    }
}

impl InferConfig {
    /// How the model is run by a configuration.
    pub fn from_config(c: &TabFMConfig) -> (r: Self)
        ensures
            r == run_by(*c),
    {
        InferConfig {
            embed_dim: c.embed_dim as usize,
            max_classes: c.max_classes as usize,
            col_num_blocks: c.col_num_blocks as usize,
            col_nhead: c.col_nhead as usize,
            col_num_inds: c.col_num_inds as usize,
            row_num_blocks: c.row_num_blocks as usize,
            row_nhead: c.row_nhead as usize,
            row_num_cls: c.row_num_cls as usize,
            icl_num_blocks: c.icl_num_blocks as usize,
            icl_nhead: c.icl_nhead as usize,
            ff_factor: c.ff_factor as usize,
            feature_group_size: c.feature_group_size as usize,
            num_freq: c.num_freq as usize,
            norm_eps: c.norm_eps,
            is_classifier: c.is_classifier,
            decoder_hidden: match c.decoder_hidden {
                Some(v) => Some(v as usize),
                None => None,
            },
        }
    }

    /// Width of the feed-forward layers of the column and row stacks.
    pub fn col_dim_ff(&self) -> (r: usize)
        requires
            self.embed_dim * self.ff_factor <= usize::MAX,
        ensures
            r == self.embed_dim * self.ff_factor,
    {
        self.embed_dim * self.ff_factor
    }

    /// Width of a row's representation: its class tokens, side by side.
    pub fn icl_dim(&self) -> (r: usize)
        requires
            self.embed_dim * self.row_num_cls <= usize::MAX,
        ensures
            r == self.embed_dim * self.row_num_cls,
    {
        self.embed_dim * self.row_num_cls
    }

    /// Width of the feed-forward layers of the blocks that learn in context.
    pub fn icl_dim_ff(&self) -> (r: usize)
        requires
            self.embed_dim * self.row_num_cls <= usize::MAX,
            self.embed_dim * self.row_num_cls * self.ff_factor <= usize::MAX,
        ensures
            r == self.embed_dim * self.row_num_cls * self.ff_factor,
    {
        self.icl_dim() * self.ff_factor
    }

    /// Width of the decoder: as configured, or else twice the row's representation.
    pub fn decoder_hidden(&self) -> (r: usize)
        requires
            self.embed_dim * self.row_num_cls * 2 <= usize::MAX,
        ensures
            r == (match self.decoder_hidden {
                Some(h) => h as int,
                None => self.embed_dim * self.row_num_cls * 2,
            }),
    {
        let twice: usize = self.icl_dim() * 2;
        match self.decoder_hidden {
            Some(h) => h,
            None => twice,
        }
    }

    /// Width of the output: one place for every class, or one number.
    pub fn out_dim(&self) -> (r: usize)
        ensures
            r == (if self.is_classifier {
                self.max_classes
            } else {
                1
            }),
    {
        if self.is_classifier {
            self.max_classes
        } else {
            1
        }
    }

    /// With another width of the decoder.
    pub fn with_decoder_hidden(self, v: Option<usize>) -> (r: Self)
        ensures
            r == (InferConfig { decoder_hidden: v, ..self }),
    {
        InferConfig { decoder_hidden: v, ..self }
    }

    /// With another constant of the norms.
    pub fn with_norm_eps(self, v: u64) -> (r: Self)
        ensures
            r == (InferConfig { norm_eps: v, ..self }),
    {
        InferConfig { norm_eps: v, ..self }
    }

    /// With another number of frequencies.
    pub fn with_num_freq(self, v: usize) -> (r: Self)
        ensures
            r == (InferConfig { num_freq: v, ..self }),
    {
        InferConfig { num_freq: v, ..self }
    }
}

/// What is wrong with a model that is built without a configuration.
#[derive(Debug, Clone, Copy, PartialEq, Eq, Structural)]
pub struct NoConfig;

impl NoConfig {
    /// The error in words.
    pub fn message(self) -> (r: String)
        ensures
            r@ == "TabFMModelBuilder: no config set — call .config(...) or .config_from(...)"@,
    {
        "TabFMModelBuilder: no config set — call .config(...) or .config_from(...)".to_string()
    }
}

/// What a model is built from: the file of its weights and its configuration, if it was given.
#[derive(Debug)]
pub struct TabFMModelBuilder {
    gguf_path: String,
    config: Option<InferConfig>,
}

impl TabFMModelBuilder {
    /// The file of the weights.
    pub closed spec fn path(&self) -> Seq<char> {
        self.gguf_path@
    }

    /// The configuration that was given last.
    pub closed spec fn given(&self) -> Option<InferConfig> {
        self.config
    }

    /// Starts with a file.
    pub fn new(gguf_path: &str) -> (r: Self)
        ensures
            r.path() == gguf_path@,
            r.given() is None,
    {
        TabFMModelBuilder { gguf_path: gguf_path.to_string(), config: None }
    }

    /// Takes a configuration.
    pub fn config(self, config: InferConfig) -> (r: Self)
        ensures
            r.path() == self.path(),
            r.given() == Some(config),
    {
        TabFMModelBuilder { gguf_path: self.gguf_path, config: Some(config) }
    }

    /// Takes a published configuration.
    pub fn config_from(self, c: &TabFMConfig) -> (r: Self)
        ensures
            r.path() == self.path(),
            r.given() == Some(run_by(*c)),
    {
        TabFMModelBuilder { gguf_path: self.gguf_path, config: Some(InferConfig::from_config(c)) }
    }

    /// The file and the configuration to load.
    pub fn build(self) -> (r: Result<(String, InferConfig), NoConfig>)
        ensures
            match self.given() {
                Some(config) => r matches Ok((path, c)) && path@ == self.path() && c == config,
                None => r matches Err(_),
            },
    {
        match self.config {
            Some(config) => Ok((self.gguf_path, config)),
            None => Err(NoConfig),
        }
    }
}

/// What is wrong with a batch of tables.
#[derive(Debug, Clone, Copy, PartialEq, Eq, Structural)]
pub enum TableError {
    NoTable,
    NoRow,
    RowCounts,
    RowWidths,
    LabelTables,
    LabelCounts,
    TrainSize,
    MaskTables,
    MaskWidths,
}

impl TableError {
    /// The error in words.
    pub open spec fn words(self) -> Seq<char> {
        match self {
            TableError::NoTable => "x_batch must have at least one table"@,
            TableError::NoRow => "x must have at least one row"@,
            TableError::RowCounts => "all batch items must have the same row count"@,
            TableError::RowWidths => "all rows of x must have the same length"@,
            TableError::LabelTables => "y_batch must have length B"@,
            TableError::LabelCounts => "each y must have the same length as x's rows"@,
            TableError::TrainSize => "train_size must be <= number of rows"@,
            TableError::MaskTables => "cat_mask_batch must have length B"@,
            TableError::MaskWidths => "cat_mask must have length H"@,
        }
    }

    /// The error in words.
    pub fn message(self) -> (r: String)
        ensures
            r@ == self.words(),
    {
        match self {
            TableError::NoTable => "x_batch must have at least one table".to_string(),
            TableError::NoRow => "x must have at least one row".to_string(),
            TableError::RowCounts => "all batch items must have the same row count".to_string(),
            TableError::RowWidths => "all rows of x must have the same length".to_string(),
            TableError::LabelTables => "y_batch must have length B".to_string(),
            TableError::LabelCounts => "each y must have the same length as x's rows".to_string(),
            TableError::TrainSize => "train_size must be <= number of rows".to_string(),
            TableError::MaskTables => "cat_mask_batch must have length B".to_string(),
            TableError::MaskWidths => "cat_mask must have length H".to_string(),
        }
    }
}

/// The shape of a batch of tables.
#[derive(Debug, Clone, Copy, PartialEq, Eq, Structural)]
pub struct Shape {
    pub tables: usize,
    pub rows: usize,
    pub columns: usize,
    /// The columns that are no padding.
    pub used: usize,
}

/// Whether all members have a length.
pub open spec fn all_long<T>(v: Seq<Vec<T>>, len: int) -> bool {
    forall|i: int| 0 <= i < v.len() ==> (#[trigger] v[i])@.len() == len
}

/// What is wrong with the first table, from `from` on, that is not like the first of the batch.
pub open spec fn odd_table<T>(x: Seq<Vec<Vec<T>>>, rows: int, columns: int, from: int) -> Option<TableError>
    decreases x.len() - from,
{
    if from >= x.len() {
        None
    } else if x[from]@.len() != rows {
        Some(TableError::RowCounts)
    } else if !all_long(x[from]@, columns) {
        Some(TableError::RowWidths)
    } else {
        odd_table(x, rows, columns, from + 1)
    }
}

/// The shape of a batch, or the first thing that is wrong with it.
pub open spec fn shape_of<T, L>(
    x: Seq<Vec<Vec<T>>>,
    y: Seq<Vec<L>>,
    train_size: int,
    mask: Seq<Vec<bool>>,
    d: Option<usize>,
) -> Result<Shape, TableError> {
    if x.len() == 0 {
        Err(TableError::NoTable)
    } else if x[0]@.len() == 0 {
        Err(TableError::NoRow)
    } else {
        let rows = x[0]@.len() as int;
        let columns = x[0]@[0]@.len() as int;
        if let Some(e) = odd_table(x, rows, columns, 0) {
            Err(e)
        } else if y.len() != x.len() {
            Err(TableError::LabelTables)
        } else if !all_long(y, rows) {
            Err(TableError::LabelCounts)
        } else if train_size > rows {
            Err(TableError::TrainSize)
        } else if mask.len() != x.len() {
            Err(TableError::MaskTables)
        } else if !all_long(mask, columns) {
            Err(TableError::MaskWidths)
        } else {
            Ok(
                Shape {
                    tables: x.len() as usize,
                    rows: rows as usize,
                    columns: columns as usize,
                    used: match d {
                        Some(d) => if d < columns {
                            d
                        } else {
                            columns as usize
                        },
                        None => columns as usize,
                    },
                },
            )
        }
    }
}

fn are_long<T>(v: &Vec<Vec<T>>, len: usize) -> (r: bool)
    ensures
        r == all_long(v@, len as int),
{
    let mut i: usize = 0;
    while i < v.len()
        invariant
            i <= v@.len(),
            forall|q: int| 0 <= q < i ==> (#[trigger] v@[q])@.len() == len,
        decreases v@.len() - i,
    {
        if v[i].len() != len {
            assert(v@[i as int]@.len() != len);
            return false;
        }
        i += 1;
    }
    true
}

fn first_odd<T>(x: &Vec<Vec<Vec<T>>>, rows: usize, columns: usize) -> (r: Option<TableError>)
    ensures
        r == odd_table(x@, rows as int, columns as int, 0),
{
    let mut i: usize = 0;
    while i < x.len()
        invariant
            i <= x@.len(),
            odd_table(x@, rows as int, columns as int, 0) == odd_table(x@, rows as int, columns as int, i as int),
        decreases x@.len() - i,
    {
        if x[i].len() != rows {
            return Some(TableError::RowCounts);
        }
        if !are_long(&x[i], columns) {
            return Some(TableError::RowWidths);
        }
        i += 1;
    }
    None
}

/// The shape of a batch, or the first thing that is wrong with it.
pub fn table_shape<T, L>(
    x: &Vec<Vec<Vec<T>>>,
    y: &Vec<Vec<L>>,
    train_size: usize,
    mask: &Vec<Vec<bool>>,
    d: Option<usize>,
) -> (r: Result<Shape, TableError>)
    ensures
        r == shape_of(x@, y@, train_size as int, mask@, d),
{
    if x.len() == 0 {
        return Err(TableError::NoTable);
    }
    let tables: usize = x.len();
    let rows: usize = x[0].len();
    if rows == 0 {
        return Err(TableError::NoRow);
    }
    let columns: usize = x[0][0].len();
    if let Some(e) = first_odd(x, rows, columns) {
        return Err(e);
    }
    if y.len() != tables {
        return Err(TableError::LabelTables);
    }
    if !are_long(y, rows) {
        return Err(TableError::LabelCounts);
    }
    if train_size > rows {
        return Err(TableError::TrainSize);
    }
    if mask.len() != tables {
        return Err(TableError::MaskTables);
    }
    if !are_long(mask, columns) {
        return Err(TableError::MaskWidths);
    }
    let used: usize = match d {
        Some(d) => if d < columns {
            d
        } else {
            columns
        },
        None => columns,
    };
    Ok(Shape { tables, rows, columns, used })
}

proof fn lemma_even_tables<T>(x: Seq<Vec<Vec<T>>>, rows: int, columns: int, from: int, b: int)
    requires
        0 <= from <= b < x.len(),
        odd_table(x, rows, columns, from) is None,
    ensures
        x[b]@.len() == rows,
        all_long(x[b]@, columns),
    decreases x.len() - from,
{
    if from < b {
        lemma_even_tables(x, rows, columns, from + 1, b);
    }
}

/// In a batch that has a shape, every table has as many rows and columns as the shape says.
pub proof fn law_shaped_tables<T, L>(
    x: Seq<Vec<Vec<T>>>,
    y: Seq<Vec<L>>,
    train_size: int,
    mask: Seq<Vec<bool>>,
    d: Option<usize>,
    b: int,
)
    requires
        shape_of(x, y, train_size, mask, d) is Ok,
        0 <= b < x.len(),
    ensures
        x[b]@.len() == x[0]@.len() > 0,
        all_long(x[b]@, x[0]@[0]@.len() as int),
        y[b]@.len() == x[0]@.len(),
        mask[b]@.len() == x[0]@[0]@.len(),
        train_size <= x[0]@.len(),
{
    lemma_even_tables(x, x[0]@.len() as int, x[0]@[0]@.len() as int, 0, b);
}

/// The mask where none is given: no column is categorical.
pub fn mask_or(mask: Option<&Vec<bool>>, columns: usize) -> (r: Vec<bool>)
    ensures
        r@ == (match mask {
            Some(m) => m@,
            None => Seq::new(columns as nat, |i: int| false),
        }),
{
    let mut out: Vec<bool> = Vec::new();
    match mask {
        Some(m) => {
            out.extend_from_slice(m.as_slice());
            assert(out@ =~= m@);
        },
        None => {
            while out.len() < columns
                invariant
                    out@.len() <= columns,
                    forall|i: int| 0 <= i < out@.len() ==> #[trigger] out@[i] == false,
                decreases columns - out@.len(),
            {
                out.push(false);
            }
            assert(out@ =~= Seq::new(columns as nat, |i: int| false));
        },
    }
    out
}

/// The column that stands at place `g` of the group of column `h`: the first is the column itself, the
/// others lie one less than a power of two further, counted round the `d` columns that are used.
pub open spec fn source_column(h: int, g: nat, d: int) -> int {
    (h + pow2(g) - 1) % (if d < 1 {
        1
    } else {
        d
    })
}

/// For every place of a group and every column the column that stands there.
pub fn group_index(columns: usize, size: usize, d: usize) -> (r: Vec<Vec<usize>>)
    requires
        columns + pow2(size as nat) <= usize::MAX,
    ensures
        r@.len() == size,
        forall|g: int| 0 <= g < size ==> (#[trigger] r@[g])@.len() == columns,
        forall|g: int, h: int|
            0 <= g < size && 0 <= h < columns ==> #[trigger] r@[g]@[h] == source_column(h, g as nat, d as int),
{
    let round: usize = if d < 1 { 1 } else { d };
    let mut out: Vec<Vec<usize>> = Vec::new();
    let mut g: usize = 0;
    let mut step: usize = 1;
    proof {
        vstd::arithmetic::power2::lemma2_to64();
    }
    while g < size
        invariant
            g <= size,
            round == (if d < 1 {
                1
            } else {
                d
            }),
            columns + pow2(size as nat) <= usize::MAX,
            step == pow2(g as nat),
            out@.len() == g,
            forall|k: int| 0 <= k < g ==> (#[trigger] out@[k])@.len() == columns,
            forall|k: int, h: int|
                0 <= k < g && 0 <= h < columns ==> #[trigger] out@[k]@[h] == source_column(h, k as nat, d as int),
        decreases size - g,
    {
        proof {
            vstd::arithmetic::power2::lemma_pow2_pos(g as nat);
            vstd::arithmetic::power2::lemma_pow2_unfold((g + 1) as nat);
            if g + 1 < size {
                vstd::arithmetic::power2::lemma_pow2_strictly_increases((g + 1) as nat, size as nat);
            }
        }
        let mut row: Vec<usize> = Vec::new();
        let mut h: usize = 0;
        while h < columns
            invariant
                h <= columns,
                round == (if d < 1 {
                    1
                } else {
                    d
                }),
                step == pow2(g as nat),
                step >= 1,
                columns + 2 * step <= usize::MAX,
                row@.len() == h,
                forall|q: int| 0 <= q < h ==> #[trigger] row@[q] == source_column(q, g as nat, d as int),
            decreases columns - h,
        {
            row.push((h + (step - 1)) % round);
            h += 1;
        }
        out.push(row);
        step = 2 * step;
        g += 1;
    }
    out
}

/// The first column of a group of a used column is the column itself, and every column of it is used.
pub proof fn law_groups_of_used(h: int, g: nat, d: int)
    requires
        0 <= h < d,
    ensures
        source_column(h, 0, d) == h,
        0 <= source_column(h, g, d) < d,
{
    vstd::arithmetic::power2::lemma2_to64();
    vstd::arithmetic::power2::lemma_pow2_pos(g);
    vstd::arithmetic::div_mod::lemma_small_mod(h as nat, d as nat);
    vstd::arithmetic::div_mod::lemma_mod_bound(h + pow2(g) - 1, d);
}

/// The model is run with the numbers of its configuration.
pub proof fn law_run_as_configured(c: TabFMConfig)
    ensures
        run_by(c).embed_dim == c.embed_dim,
        run_by(c).max_classes == c.max_classes,
        run_by(c).col_num_blocks == c.col_num_blocks,
        run_by(c).col_nhead == c.col_nhead,
        run_by(c).col_num_inds == c.col_num_inds,
        run_by(c).row_num_blocks == c.row_num_blocks,
        run_by(c).row_nhead == c.row_nhead,
        run_by(c).row_num_cls == c.row_num_cls,
        run_by(c).icl_num_blocks == c.icl_num_blocks,
        run_by(c).icl_nhead == c.icl_nhead,
        run_by(c).ff_factor == c.ff_factor,
        run_by(c).feature_group_size == c.feature_group_size,
        run_by(c).num_freq == c.num_freq,
        run_by(c).norm_eps == c.norm_eps,
        run_by(c).is_classifier == c.is_classifier,
        c.decoder_hidden is None <==> run_by(c).decoder_hidden is None,
        c.decoder_hidden matches Some(v) ==> run_by(c).decoder_hidden == Some(v as usize),
{
}

proof fn lemma_no_odd_table<T>(x: Seq<Vec<Vec<T>>>, rows: int, columns: int, from: int)
    requires
        0 <= from,
        forall|b: int| from <= b < x.len() ==> (#[trigger] x[b])@.len() == rows && all_long(x[b]@, columns),
    ensures
        odd_table(x, rows, columns, from) is None,
    decreases x.len() - from,
{
    if from < x.len() {
        assert(x[from]@.len() == rows);
        lemma_no_odd_table(x, rows, columns, from + 1);
    }
}

proof fn lemma_odd_table<T>(x: Seq<Vec<Vec<T>>>, rows: int, columns: int, from: int)
    requires
        0 <= from,
    ensures
        match odd_table(x, rows, columns, from) {
            None => forall|b: int| from <= b < x.len() ==> (#[trigger] x[b])@.len() == rows && all_long(x[b]@, columns),
            Some(e) => {
                ||| e is RowCounts && exists|b: int| from <= b < x.len() && (#[trigger] x[b])@.len() != rows
                ||| e is RowWidths && exists|b: int| from <= b < x.len() && !all_long((#[trigger] x[b])@, columns)
            },
        },
    decreases x.len() - from,
{
    if from < x.len() {
        lemma_odd_table(x, rows, columns, from + 1);
        if x[from]@.len() == rows && all_long(x[from]@, columns) {
            assert forall|b: int| from <= b < x.len() && odd_table(x, rows, columns, from) is None implies (
            #[trigger] x[b])@.len() == rows && all_long(x[b]@, columns) by {
                if b > from {
                    assert(x[b]@.len() == rows);
                }
            }
        }
    }
}

/// Tables that fit together have a shape: theirs, with as many columns used as are said to be, but no
/// more than there are.
pub proof fn law_fitting_tables_have_a_shape<T, L>(
    x: Seq<Vec<Vec<T>>>,
    y: Seq<Vec<L>>,
    train_size: int,
    mask: Seq<Vec<bool>>,
    d: Option<usize>,
    rows: usize,
    columns: usize,
)
    requires
        0 < x.len() <= usize::MAX,
        0 < rows,
        forall|b: int| 0 <= b < x.len() ==> (#[trigger] x[b])@.len() == rows,
        forall|b: int, i: int| 0 <= b < x.len() && 0 <= i < rows ==> (#[trigger] x[b]@[i])@.len() == columns,
        y.len() == x.len(),
        forall|b: int| 0 <= b < y.len() ==> (#[trigger] y[b])@.len() == rows,
        train_size <= rows,
        mask.len() == x.len(),
        forall|b: int| 0 <= b < mask.len() ==> (#[trigger] mask[b])@.len() == columns,
    ensures
        shape_of(x, y, train_size, mask, d) matches Ok(s) && s.tables == x.len() && s.rows == rows && s.columns == columns
            && (match d {
            None => s.used == columns,
            Some(d) => s.used <= d && s.used <= columns && (s.used == d || s.used == columns),
        }),
{
    assert(x[0]@.len() == rows);
    assert(x[0]@[0]@.len() == columns);
    assert forall|b: int| 0 <= b < x.len() implies (#[trigger] x[b])@.len() == rows && all_long(
        x[b]@,
        columns as int,
    ) by {}
    lemma_no_odd_table(x, rows as int, columns as int, 0);
}

/// Every error is there for its reason.
pub proof fn law_table_errors<T, L>(
    x: Seq<Vec<Vec<T>>>,
    y: Seq<Vec<L>>,
    train_size: int,
    mask: Seq<Vec<bool>>,
    d: Option<usize>,
)
    requires
        shape_of(x, y, train_size, mask, d) is Err,
    ensures
        match shape_of(x, y, train_size, mask, d)->Err_0 {
            TableError::NoTable => x.len() == 0,
            TableError::NoRow => x[0]@.len() == 0,
            TableError::RowCounts => exists|b: int| 0 <= b < x.len() && (#[trigger] x[b])@.len() != x[0]@.len(),
            TableError::RowWidths => exists|b: int, i: int|
                0 <= b < x.len() && 0 <= i < x[b]@.len() && (#[trigger] x[b]@[i])@.len() != x[0]@[0]@.len(),
            TableError::LabelTables => y.len() != x.len(),
            TableError::LabelCounts => exists|b: int| 0 <= b < y.len() && (#[trigger] y[b])@.len() != x[0]@.len(),
            TableError::TrainSize => train_size > x[0]@.len(),
            TableError::MaskTables => mask.len() != x.len(),
            TableError::MaskWidths => exists|b: int|
                0 <= b < mask.len() && (#[trigger] mask[b])@.len() != x[0]@[0]@.len(),
        },
{
    if x.len() > 0 && x[0]@.len() > 0 {
        let rows = x[0]@.len() as int;
        let columns = x[0]@[0]@.len() as int;
        lemma_odd_table(x, rows, columns, 0);
        if shape_of(x, y, train_size, mask, d)->Err_0 is RowWidths {
            let b = choose|b: int| 0 <= b < x.len() && !all_long((#[trigger] x[b])@, columns);
            let i = choose|i: int| 0 <= i < x[b]@.len() && (#[trigger] x[b]@[i])@.len() != columns;
            assert(x[b]@[i]@.len() != columns);
        }
    }
}

/// A group's column lies one less than a power of two behind its own, going round the used ones: none,
/// one, three and so on.
pub proof fn law_groups_lie_ahead(h: int, g: nat, d: int)
    requires
        0 <= h < d,
    ensures
        source_column(h, 0, d) == h,
        source_column(h, 1, d) == (h + 1) % d,
        source_column(h, 2, d) == (h + 3) % d,
        source_column(h, g + 1, d) == (source_column(h, g, d) + pow2(g)) % d,
{
    vstd::arithmetic::power2::lemma2_to64();
    vstd::arithmetic::power2::lemma_pow2_unfold(g + 1);
    vstd::arithmetic::div_mod::lemma_small_mod(h as nat, d as nat);
    vstd::arithmetic::div_mod::lemma_add_mod_noop(h + pow2(g) - 1, pow2(g) as int, d);
    vstd::arithmetic::div_mod::lemma_add_mod_noop((h + pow2(g) - 1) % d, pow2(g) as int, d);
    vstd::arithmetic::div_mod::lemma_mod_twice(h + pow2(g) - 1, d);
}

/// How errors are worded.
pub proof fn law_errors_are_worded()
    ensures
        TableError::NoTable.words() == "x_batch must have at least one table"@,
        TableError::NoRow.words() == "x must have at least one row"@,
        TableError::RowCounts.words() == "all batch items must have the same row count"@,
        TableError::RowWidths.words() == "all rows of x must have the same length"@,
        TableError::LabelTables.words() == "y_batch must have length B"@,
        TableError::LabelCounts.words() == "each y must have the same length as x's rows"@,
        TableError::TrainSize.words() == "train_size must be <= number of rows"@,
        TableError::MaskTables.words() == "cat_mask_batch must have length B"@,
        TableError::MaskWidths.words() == "cat_mask must have length H"@,
{
}

} // verus!
