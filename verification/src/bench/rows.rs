//! What the cells of the report's tables show.
//!
//! A cell is a text or a number to be shown; making the text of a number is not done here. Which
//! datasets, models and combinations have a row, and what stands in it, is.

use vstd::prelude::*;

use crate::bench::cache;
use crate::bench::cache::{Cache, CachedRun, SoloResult};
use crate::bench::data;
use crate::bench::data::DatasetSpec;
use crate::bench::model_id::ModelId;
use crate::bench::report;
use crate::bench::report::{Measure, MAIN_CONTEXT, MAIN_HORIZON, NOT_A_NUMBER, TOP_N_ENSEMBLES};
use crate::float_bits;

verus! {

/// What a cell shows. Numbers are the bits of doubles.
#[derive(Debug)]
pub enum Cell {
    Text(String),
    /// A number with so many decimals, in bold where it is as good as the best of its row.
    Number { bits: u64, decimals: usize, best: Option<u64> },
    /// A latency with its unit.
    Latency { bits: u64, unit: &'static str },
    /// By how much a number lies above another.
    Difference { of: u64, from: u64 },
    /// The same in percent of the other.
    Change { of: u64, from: u64 },
}

/// What a cell shows.
pub enum CellView {
    Text(Seq<char>),
    Number { bits: u64, decimals: usize, best: Option<u64> },
    Latency { bits: u64, unit: Seq<char> },
    Difference { of: u64, from: u64 },
    Change { of: u64, from: u64 },
}

impl View for Cell {
    type V = CellView;

    open spec fn view(&self) -> CellView {
        match self {
            Cell::Text(s) => CellView::Text(s@),
            Cell::Number { bits, decimals, best } => CellView::Number {
                bits: *bits,
                decimals: *decimals,
                best: *best,
            },
            Cell::Latency { bits, unit } => CellView::Latency { bits: *bits, unit: unit@ },
            Cell::Difference { of, from } => CellView::Difference { of: *of, from: *from },
            Cell::Change { of, from } => CellView::Change { of: *of, from: *from },
        }
    }
}

/// What the cells of a row show.
pub open spec fn cell_views(row: Seq<Cell>) -> Seq<CellView> {
    row.map_values(|c: Cell| c@)
}

/// What the rows of a table show.
pub open spec fn row_views(rows: Seq<Vec<Cell>>) -> Seq<Seq<CellView>> {
    rows.map_values(|row: Vec<Cell>| cell_views(row@))
}

fn push_cell(out: &mut Vec<Cell>, cell: Cell)
    ensures
        cell_views(final(out)@) == cell_views(old(out)@).push(cell@),
{
    out.push(cell);
    assert(cell_views(out@) =~= cell_views(old(out)@).push(cell@));
}

fn push_words(out: &mut Vec<Cell>, s: &str)
    ensures
        cell_views(final(out)@) == cell_views(old(out)@).push(CellView::Text(s@)),
{
    push_cell(out, Cell::Text(s.to_string()));
}

fn push_row(rows: &mut Vec<Vec<Cell>>, row: Vec<Cell>)
    ensures
        row_views(final(rows)@) == row_views(old(rows)@).push(cell_views(row@)),
{
    rows.push(row);
    assert(row_views(rows@) =~= row_views(old(rows)@).push(cell_views(row@)));
}

/// The place of the first of the least numbers, if there is a number.
pub open spec fn winner_place(raw: Seq<u64>) -> Option<int> {
    if exists|i: int| report::least_number(raw, i) {
        Some(choose|i: int| report::least_number(raw, i))
    } else {
        None
    }
}

/// The place of the first of the least finite numbers, if there is one.
pub open spec fn finite_place(raw: Seq<u64>) -> Option<int> {
    if exists|i: int| report::least_finite(raw, i) {
        Some(choose|i: int| report::least_finite(raw, i))
    } else {
        None
    }
}

/// The number that others of a row are set against: the least one, unless it is infinite.
pub open spec fn best_of(raw: Seq<u64>) -> Option<u64> {
    match winner_place(raw) {
        Some(i) => if float_bits::finite(raw[i]) {
            Some(raw[i])
        } else {
            None
        },
        None => None,
    }
}

proof fn lemma_winner_place(raw: Seq<u64>, i: int)
    requires
        report::least_number(raw, i),
    ensures
        winner_place(raw) == Some(i),
{
    let j = choose|j: int| report::least_number(raw, j);
    assert(report::least_number(raw, j));
    if i != j {
        assert(float_bits::sorts_before(raw, i, j));
        assert(float_bits::sorts_before(raw, j, i));
    }
}

proof fn lemma_finite_place(raw: Seq<u64>, i: int)
    requires
        report::least_finite(raw, i),
    ensures
        finite_place(raw) == Some(i),
{
    let j = choose|j: int| report::least_finite(raw, j);
    assert(report::least_finite(raw, j));
    if i != j {
        assert(float_bits::sorts_before(raw, i, j));
        assert(float_bits::sorts_before(raw, j, i));
    }
}

fn winner_of(raw: &[u64]) -> (r: Option<usize>)
    ensures
        match r {
            Some(i) => i < raw@.len() && winner_place(raw@) == Some(i as int),
            None => winner_place(raw@) is None,
        },
{
    let r: Option<usize> = report::winner(raw);
    proof {
        match r {
            Some(i) => {
                lemma_winner_place(raw@, i as int);
            },
            None => {
                assert forall|i: int| !#[trigger] report::least_number(raw@, i) by {
                    if 0 <= i < raw@.len() {
                        assert(float_bits::nan(raw@[i]));
                    }
                }
            },
        }
    }
    r
}

fn finite_of(raw: &[u64]) -> (r: Option<usize>)
    ensures
        match r {
            Some(i) => i < raw@.len() && finite_place(raw@) == Some(i as int),
            None => finite_place(raw@) is None,
        },
{
    let r: Option<usize> = report::best_solo(raw);
    proof {
        match r {
            Some(i) => {
                lemma_finite_place(raw@, i as int);
            },
            None => {
                assert forall|i: int| !#[trigger] report::least_finite(raw@, i) by {
                    if 0 <= i < raw@.len() {
                        assert(!float_bits::finite(raw@[i]));
                    }
                }
            },
        }
    }
    r
}

/// The number that others of a row are set against: the least one, unless it is infinite.
pub fn row_best(raw: &[u64]) -> (r: Option<u64>)
    ensures
        r == best_of(raw@),
{
    match winner_of(raw) {
        Some(i) => if float_bits::is_finite(raw[i]) {
            Some(raw[i])
        } else {
            None
        },
        None => None,
    }
}

/// The cells of numbers.
pub open spec fn number_cells(raw: Seq<u64>, decimals: usize, best: Option<u64>) -> Seq<CellView> {
    raw.map_values(|bits: u64| CellView::Number { bits, decimals, best })
}

fn push_numbers(out: &mut Vec<Cell>, raw: &[u64], decimals: usize, best: Option<u64>)
    ensures
        cell_views(final(out)@) == cell_views(old(out)@) + number_cells(raw@, decimals, best),
{
    let ghost all = number_cells(raw@, decimals, best);
    let mut i: usize = 0;
    assert(cell_views(out@) =~= cell_views(old(out)@) + all.take(0));
    while i < raw.len()
        invariant
            i <= raw@.len(),
            all == number_cells(raw@, decimals, best),
            cell_views(out@) == cell_views(old(out)@) + all.take(i as int),
        decreases raw@.len() - i,
    {
        push_cell(out, Cell::Number { bits: raw[i], decimals, best });
        i += 1;
        assert(cell_views(out@) =~= cell_views(old(out)@) + all.take(i as int));
    }
    assert(all.take(i as int) =~= all);
}

/// The tables that have a row for each dataset.
#[derive(Debug, Clone, Copy, PartialEq, Eq, Structural)]
pub enum Table {
    Mae,
    Mase,
    Latency,
    /// The best combination beside the best model.
    Best,
}

/// The name of the best model, and a dash where there is none.
pub open spec fn winner_name(raw: Seq<u64>, order: Seq<ModelId>) -> Seq<char> {
    match winner_place(raw) {
        Some(i) => order[i].name(),
        None => "—"@,
    }
}

/// The latency of a model; none where it has no results.
pub open spec fn latency_bits(run: CachedRun, model: ModelId) -> u64 {
    match cache::solo_among(run.solo@, model.name(), 0) {
        Some(s) => s.lat_ms,
        None => NOT_A_NUMBER,
    }
}

/// The row of a dataset. It has none beside its best model if it has no finite mean error or no
/// combination.
pub open spec fn row_of(which: Table, spec: DatasetSpec, run: CachedRun, order: Seq<ModelId>) -> Option<
    Seq<CellView>,
> {
    let mae = report::solo_numbers(run, order, Measure::Mae);
    let mase = report::solo_numbers(run, order, Measure::Mase);
    match which {
        Table::Mae => Some(
            seq![CellView::Text(spec.name@), CellView::Text(spec.freq@), CellView::Text(spec.domain@)] + number_cells(
                mae,
                4,
                best_of(mae),
            ).push(CellView::Text(winner_name(mae, order))),
        ),
        Table::Mase => Some(
            seq![CellView::Text(spec.name@)] + number_cells(mase, 3, best_of(mase)).push(
                CellView::Text(winner_name(mase, order)),
            ),
        ),
        Table::Latency => Some(
            seq![CellView::Text(spec.name@)] + order.map_values(
                |m: ModelId| CellView::Latency { bits: latency_bits(run, m), unit: ""@ },
            ),
        ),
        Table::Best => match finite_place(mae) {
            Some(i) => if run.ensembles@.len() > 0 {
                let first = run.ensembles@[0];
                Some(
                    seq![
                        CellView::Text(spec.name@),
                        CellView::Text(order[i].name()),
                        CellView::Number { bits: mae[i], decimals: 4, best: None },
                        CellView::Text(first.name@),
                        CellView::Number { bits: first.metrics.mae, decimals: 4, best: None },
                        CellView::Difference { of: first.metrics.mae, from: mae[i] },
                        CellView::Change { of: first.metrics.mae, from: mae[i] },
                    ],
                )
            } else {
                None
            },
            None => None,
        },
    }
}

fn push_winner(row: &mut Vec<Cell>, raw: &[u64], order: &[ModelId])
    requires
        raw@.len() == order@.len(),
    ensures
        cell_views(final(row)@) == cell_views(old(row)@).push(CellView::Text(winner_name(raw@, order@))),
{
    match winner_of(raw) {
        Some(i) => push_words(row, order[i].as_str()),
        None => push_words(row, "—"),
    }
}

fn latency_of(run: &CachedRun, model: ModelId) -> (r: u64)
    ensures
        r == latency_bits(*run, model),
{
    match run.solo_of(model.as_str()) {
        Some(s) => s.lat_ms,
        None => NOT_A_NUMBER,
    }
}

/// The row of a dataset.
pub fn dataset_row(which: Table, spec: &DatasetSpec, run: &CachedRun, order: &[ModelId]) -> (r: Option<Vec<Cell>>)
    ensures
        match r {
            Some(row) => row_of(which, *spec, *run, order@) == Some(cell_views(row@)),
            None => row_of(which, *spec, *run, order@) is None,
        },
{
    let mut row: Vec<Cell> = Vec::new();
    assert(cell_views(row@) =~= Seq::empty());
    push_words(&mut row, spec.name);
    match which {
        Table::Mae => {
            let raw: Vec<u64> = report::solo_values(run, order, Measure::Mae);
            push_words(&mut row, spec.freq);
            push_words(&mut row, spec.domain);
            push_numbers(&mut row, raw.as_slice(), 4, row_best(raw.as_slice()));
            push_winner(&mut row, raw.as_slice(), order);
        },
        Table::Mase => {
            let raw: Vec<u64> = report::solo_values(run, order, Measure::Mase);
            push_numbers(&mut row, raw.as_slice(), 3, row_best(raw.as_slice()));
            push_winner(&mut row, raw.as_slice(), order);
        },
        Table::Latency => {
            let ghost all = order@.map_values(
                |m: ModelId| CellView::Latency { bits: latency_bits(*run, m), unit: ""@ },
            );
            let mut i: usize = 0;
            assert(cell_views(row@) =~= seq![CellView::Text(spec.name@)] + all.take(0));
            while i < order.len()
                invariant
                    i <= order@.len(),
                    all == order@.map_values(
                        |m: ModelId| CellView::Latency { bits: latency_bits(*run, m), unit: ""@ },
                    ),
                    cell_views(row@) == seq![CellView::Text(spec.name@)] + all.take(i as int),
                decreases order@.len() - i,
            {
                push_cell(&mut row, Cell::Latency { bits: latency_of(run, order[i]), unit: "" });
                i += 1;
                assert(cell_views(row@) =~= seq![CellView::Text(spec.name@)] + all.take(i as int));
            }
            assert(all.take(i as int) =~= all);
        },
        Table::Best => {
            let raw: Vec<u64> = report::solo_values(run, order, Measure::Mae);
            if run.ensembles.len() == 0 {
                return None;
            }
            match finite_of(raw.as_slice()) {
                Some(i) => {
                    let solo: u64 = raw[i];
                    let best: u64 = run.ensembles[0].metrics.mae;
                    push_words(&mut row, order[i].as_str());
                    push_cell(&mut row, Cell::Number { bits: solo, decimals: 4, best: None });
                    push_words(&mut row, run.ensembles[0].name.as_str());
                    push_cell(&mut row, Cell::Number { bits: best, decimals: 4, best: None });
                    push_cell(&mut row, Cell::Difference { of: best, from: solo });
                    push_cell(&mut row, Cell::Change { of: best, from: solo });
                },
                None => {
                    return None;
                },
            }
        },
    }
    assert(cell_views(row@) =~= row_of(which, *spec, *run, order@)->0);
    Some(row)
}

/// The results of a dataset in the main evaluation, if it has any.
pub open spec fn main_run(c: Cache, spec: DatasetSpec, windows: usize) -> Option<CachedRun> {
    let key = cache::key_text(spec.name@, MAIN_CONTEXT as nat, MAIN_HORIZON as nat, windows as nat);
    if c.entries().dom().contains(key) {
        Some(c.entries()[key])
    } else {
        None
    }
}

fn main_results<'a>(c: &'a Cache, spec: &DatasetSpec, windows: usize) -> (r: Option<&'a CachedRun>)
    requires
        c.wf(),
    ensures
        match r {
            Some(run) => main_run(*c, *spec, windows) == Some(*run),
            None => main_run(*c, *spec, windows) is None,
        },
{
    let key: String = cache::key(spec.name, MAIN_CONTEXT, MAIN_HORIZON, windows);
    c.get(key.as_str())
}

/// The rows of the first `n` datasets, as far as they have results and a row.
pub open spec fn rows_of(which: Table, c: Cache, order: Seq<ModelId>, windows: usize, n: nat) -> Seq<Seq<CellView>>
    decreases n,
{
    if n == 0 {
        Seq::empty()
    } else {
        let before = rows_of(which, c, order, windows, (n - 1) as nat);
        let spec = data::dataset_list()[n - 1];
        match main_run(c, spec, windows) {
            Some(run) => match row_of(which, spec, run, order) {
                Some(row) => before.push(row),
                None => before,
            },
            None => before,
        }
    }
}

/// The rows of a table of the main evaluation.
pub fn table_rows(which: Table, c: &Cache, order: &[ModelId], windows: usize) -> (r: Vec<Vec<Cell>>)
    requires
        c.wf(),
    ensures
        row_views(r@) == rows_of(which, *c, order@, windows, data::dataset_list().len()),
{
    let all: Vec<DatasetSpec> = data::datasets();
    let mut rows: Vec<Vec<Cell>> = Vec::new();
    let mut i: usize = 0;
    assert(row_views(rows@) =~= rows_of(which, *c, order@, windows, 0));
    while i < all.len()
        invariant
            i <= all@.len(),
            all@ == data::dataset_list(),
            c.wf(),
            row_views(rows@) == rows_of(which, *c, order@, windows, i as nat),
        decreases all@.len() - i,
    {
        match main_results(c, &all[i], windows) {
            Some(run) => match dataset_row(which, &all[i], run, order) {
                Some(row) => push_row(&mut rows, row),
                None => {},
            },
            None => {},
        }
        i += 1;
    }
    rows
}

/// What is varied in a sweep.
#[derive(Debug, Clone, Copy, PartialEq, Eq, Structural)]
pub enum Axis {
    Horizon,
    Context,
}

/// The context length and the horizon at a place of a sweep.
pub open spec fn swept(axis: Axis, place: int) -> (usize, usize) {
    match axis {
        Axis::Horizon => (MAIN_CONTEXT, report::horizon_list()[place]),
        Axis::Context => (report::context_list()[place], MAIN_HORIZON),
    }
}

/// The scale-free errors of a model at each place of a sweep.
pub open spec fn sweep_of(c: Cache, model: ModelId, axis: Axis, windows: usize) -> Seq<Seq<u64>> {
    Seq::new(
        4,
        |p: int|
            report::sweep_numbers(
                c,
                model,
                swept(axis, p).0,
                swept(axis, p).1,
                windows,
                data::dataset_list().len(),
            ),
    )
}

/// The scale-free errors of a model at each place of a sweep, those of all datasets that have one.
pub fn sweep_columns(c: &Cache, model: ModelId, axis: Axis, windows: usize) -> (r: Vec<Vec<u64>>)
    requires
        c.wf(),
    ensures
        r@.map_values(|v: Vec<u64>| v@) == sweep_of(*c, model, axis, windows),
{
    let values: Vec<usize> = match axis {
        Axis::Horizon => report::horizons(),
        Axis::Context => report::contexts(),
    };
    let mut out: Vec<Vec<u64>> = Vec::new();
    let mut p: usize = 0;
    while p < values.len()
        invariant
            p <= values@.len() == 4,
            values@ == (match axis {
                Axis::Horizon => report::horizon_list(),
                Axis::Context => report::context_list(),
            }),
            c.wf(),
            out@.len() == p,
            forall|q: int| 0 <= q < p ==> (#[trigger] out@[q])@ == sweep_of(*c, model, axis, windows)[q],
        decreases values@.len() - p,
    {
        let (context, horizon): (usize, usize) = match axis {
            Axis::Horizon => (MAIN_CONTEXT, values[p]),
            Axis::Context => (values[p], MAIN_HORIZON),
        };
        out.push(report::sweep_values(c, model, context, horizon, windows));
        p += 1;
    }
    assert(out@.map_values(|v: Vec<u64>| v@) =~= sweep_of(*c, model, axis, windows));
    out
}

/// The row of a model in a sweep, given the mean of each place.
pub open spec fn sweep_row_of(model: ModelId, means: Seq<u64>) -> Seq<CellView> {
    seq![CellView::Text(model.label_text())] + number_cells(means, 3, best_of(means))
}

/// The row of a model in a sweep, given the mean of each place.
pub fn sweep_row(model: ModelId, means: &[u64]) -> (r: Vec<Cell>)
    ensures
        cell_views(r@) == sweep_row_of(model, means@),
{
    let mut row: Vec<Cell> = Vec::new();
    assert(cell_views(row@) =~= Seq::empty());
    push_words(&mut row, model.label());
    push_numbers(&mut row, means, 3, row_best(means));
    assert(cell_views(row@) =~= sweep_row_of(model, means@));
    row
}

/// The details of a dataset.
#[derive(Debug)]
pub struct DetailRows {
    pub spec: DatasetSpec,
    pub series_len: usize,
    pub test_rows: usize,
    /// The rows of the models.
    pub solo: Vec<Vec<Cell>>,
    /// The rows of the combinations.
    pub ensembles: Vec<Vec<Cell>>,
}

/// What the details of a dataset show.
pub struct DetailRowsView {
    pub spec: DatasetSpec,
    pub series_len: usize,
    pub test_rows: usize,
    pub solo: Seq<Seq<CellView>>,
    pub ensembles: Seq<Seq<CellView>>,
}

impl View for DetailRows {
    type V = DetailRowsView;

    open spec fn view(&self) -> DetailRowsView {
        DetailRowsView {
            spec: self.spec,
            series_len: self.series_len,
            test_rows: self.test_rows,
            solo: row_views(self.solo@),
            ensembles: row_views(self.ensembles@),
        }
    }
}

/// The row of a model in a dataset's details.
pub open spec fn solo_cells(model: ModelId, s: SoloResult, best: Option<u64>) -> Seq<CellView> {
    seq![
        CellView::Text(model.name()),
        CellView::Number { bits: s.metrics.mae, decimals: 4, best },
        CellView::Number { bits: s.metrics.rmse, decimals: 4, best: None },
        CellView::Number { bits: s.metrics.mase, decimals: 3, best: None },
        CellView::Latency { bits: s.lat_ms, unit: "ms"@ },
    ]
}

/// The rows of the first `n` models, as far as they have results.
pub open spec fn solo_rows_of(run: CachedRun, order: Seq<ModelId>, best: Option<u64>, n: nat) -> Seq<Seq<CellView>>
    decreases n,
{
    if n == 0 {
        Seq::empty()
    } else {
        let before = solo_rows_of(run, order, best, (n - 1) as nat);
        match cache::solo_among(run.solo@, order[n - 1].name(), 0) {
            Some(s) => before.push(solo_cells(order[n - 1], s, best)),
            None => before,
        }
    }
}

/// The rows of the first combinations.
pub open spec fn ensemble_rows_of(run: CachedRun, from: u64) -> Seq<Seq<CellView>> {
    run.ensembles@.take(
        if run.ensembles@.len() < TOP_N_ENSEMBLES {
            run.ensembles@.len() as int
        } else {
            TOP_N_ENSEMBLES as int
        },
    ).map_values(
        |e: cache::EnsembleResult|
            seq![
                CellView::Text(e.name@),
                CellView::Number { bits: e.metrics.mae, decimals: 4, best: None },
                CellView::Number { bits: e.metrics.rmse, decimals: 4, best: None },
                CellView::Number { bits: e.metrics.mase, decimals: 3, best: None },
                CellView::Difference { of: e.metrics.mae, from },
            ],
    )
}

/// The least finite mean error, if there is one.
pub open spec fn best_error(run: CachedRun, order: Seq<ModelId>) -> Option<u64> {
    let mae = report::solo_numbers(run, order, Measure::Mae);
    match finite_place(mae) {
        Some(i) => Some(mae[i]),
        None => None,
    }
}

/// The details of a dataset: its models, set against the least finite error, and its first
/// combinations, set against it too, or against infinity where there is none.
pub open spec fn detail_of(spec: DatasetSpec, run: CachedRun, order: Seq<ModelId>) -> DetailRowsView {
    let best = best_error(run, order);
    DetailRowsView {
        spec,
        series_len: run.series_len,
        test_rows: run.test_rows,
        solo: solo_rows_of(run, order, best, order.len()),
        ensembles: ensemble_rows_of(
            run,
            match best {
                Some(b) => b,
                None => float_bits::INFINITY,
            },
        ),
    }
}

fn solo_rows(run: &CachedRun, order: &[ModelId], best: Option<u64>) -> (r: Vec<Vec<Cell>>)
    ensures
        row_views(r@) == solo_rows_of(*run, order@, best, order@.len()),
{
    let mut rows: Vec<Vec<Cell>> = Vec::new();
    let mut i: usize = 0;
    assert(row_views(rows@) =~= solo_rows_of(*run, order@, best, 0));
    while i < order.len()
        invariant
            i <= order@.len(),
            row_views(rows@) == solo_rows_of(*run, order@, best, i as nat),
        decreases order@.len() - i,
    {
        match run.solo_of(order[i].as_str()) {
            Some(s) => {
                let mut row: Vec<Cell> = Vec::new();
                assert(cell_views(row@) =~= Seq::empty());
                push_words(&mut row, order[i].as_str());
                push_cell(&mut row, Cell::Number { bits: s.metrics.mae, decimals: 4, best });
                push_cell(&mut row, Cell::Number { bits: s.metrics.rmse, decimals: 4, best: None });
                push_cell(&mut row, Cell::Number { bits: s.metrics.mase, decimals: 3, best: None });
                push_cell(&mut row, Cell::Latency { bits: s.lat_ms, unit: "ms" });
                assert(cell_views(row@) =~= solo_cells(order@[i as int], s, best));
                push_row(&mut rows, row);
            },
            None => {},
        }
        i += 1;
    }
    rows
}

fn ensemble_rows(run: &CachedRun, from: u64) -> (r: Vec<Vec<Cell>>)
    ensures
        row_views(r@) == ensemble_rows_of(*run, from),
{
    let n: usize = report::listed(run);
    let mut rows: Vec<Vec<Cell>> = Vec::new();
    let mut i: usize = 0;
    assert(row_views(rows@) =~= ensemble_rows_of(*run, from).take(0));
    while i < n
        invariant
            i <= n,
            n == ensemble_rows_of(*run, from).len(),
            n <= run.ensembles@.len(),
            row_views(rows@) == ensemble_rows_of(*run, from).take(i as int),
        decreases n - i,
    {
        let e = &run.ensembles[i];
        let mut row: Vec<Cell> = Vec::new();
        assert(cell_views(row@) =~= Seq::empty());
        push_words(&mut row, e.name.as_str());
        push_cell(&mut row, Cell::Number { bits: e.metrics.mae, decimals: 4, best: None });
        push_cell(&mut row, Cell::Number { bits: e.metrics.rmse, decimals: 4, best: None });
        push_cell(&mut row, Cell::Number { bits: e.metrics.mase, decimals: 3, best: None });
        push_cell(&mut row, Cell::Difference { of: e.metrics.mae, from });
        assert(cell_views(row@) =~= ensemble_rows_of(*run, from)[i as int]);
        push_row(&mut rows, row);
        i += 1;
        assert(row_views(rows@) =~= ensemble_rows_of(*run, from).take(i as int));
    }
    assert(ensemble_rows_of(*run, from).take(i as int) =~= ensemble_rows_of(*run, from));
    rows
}

/// The details of a dataset.
pub fn dataset_detail(spec: &DatasetSpec, run: &CachedRun, order: &[ModelId]) -> (r: DetailRows)
    ensures
        r@ == detail_of(*spec, *run, order@),
{
    let raw: Vec<u64> = report::solo_values(run, order, Measure::Mae);
    let best: Option<u64> = match finite_of(raw.as_slice()) {
        Some(i) => Some(raw[i]),
        None => None,
    };
    let from: u64 = match best {
        Some(b) => b,
        None => float_bits::INFINITY,
    };
    DetailRows {
        spec: *spec,
        series_len: run.series_len,
        test_rows: run.test_rows,
        solo: solo_rows(run, order, best),
        ensembles: ensemble_rows(run, from),
    }
}

/// The details of the first `n` datasets, as far as they have results.
pub open spec fn details_of(c: Cache, order: Seq<ModelId>, windows: usize, n: nat) -> Seq<DetailRowsView>
    decreases n,
{
    if n == 0 {
        Seq::empty()
    } else {
        let before = details_of(c, order, windows, (n - 1) as nat);
        let spec = data::dataset_list()[n - 1];
        match main_run(c, spec, windows) {
            Some(run) => before.push(detail_of(spec, run, order)),
            None => before,
        }
    }
}

/// The details of all datasets that have results in the main evaluation.
pub fn details(c: &Cache, order: &[ModelId], windows: usize) -> (r: Vec<DetailRows>)
    requires
        c.wf(),
    ensures
        r@.map_values(|d: DetailRows| d@) == details_of(*c, order@, windows, data::dataset_list().len()),
{
    let all: Vec<DatasetSpec> = data::datasets();
    let mut out: Vec<DetailRows> = Vec::new();
    let mut i: usize = 0;
    assert(out@.map_values(|d: DetailRows| d@) =~= Seq::empty());
    while i < all.len()
        invariant
            i <= all@.len(),
            all@ == data::dataset_list(),
            c.wf(),
            out@.map_values(|d: DetailRows| d@) == details_of(*c, order@, windows, i as nat),
        decreases all@.len() - i,
    {
        let ghost before = out@;
        match main_results(c, &all[i], windows) {
            Some(run) => {
                let d: DetailRows = dataset_detail(&all[i], run, order);
                out.push(d);
                assert(out@.map_values(|d: DetailRows| d@) =~= before.map_values(|d: DetailRows| d@).push(d@));
            },
            None => {},
        }
        i += 1;
    }
    out
}

/// Every row of a table of models has a cell for each of them: between its name and its winner in the
/// tables of errors, behind its name in that of latencies.
pub proof fn law_row_widths(spec: DatasetSpec, run: CachedRun, order: Seq<ModelId>)
    ensures
        row_of(Table::Mae, spec, run, order)->0.len() == order.len() + 4,
        row_of(Table::Mase, spec, run, order)->0.len() == order.len() + 2,
        row_of(Table::Latency, spec, run, order)->0.len() == order.len() + 1,
{
}

/// The winner is the least number, and there is none only where there is no number.
pub proof fn law_winner_is_least(raw: Seq<u64>, order: Seq<ModelId>, i: int)
    requires
        report::least_number(raw, i),
    ensures
        winner_place(raw) == Some(i),
        winner_name(raw, order) == order[i].name(),
        raw[i] % 0x8000_0000_0000_0000 < 0x7ff0_0000_0000_0000 ==> best_of(raw) == Some(raw[i]),
        raw[i] % 0x8000_0000_0000_0000 >= 0x7ff0_0000_0000_0000 ==> best_of(raw) is None,
{
    lemma_winner_place(raw, i);
    float_bits::law_kinds_of_doubles(raw[i]);
}

/// Without a number there is no winner, and a dash stands for its name.
pub proof fn law_no_number_no_winner(raw: Seq<u64>, order: Seq<ModelId>)
    requires
        forall|j: int| 0 <= j < raw.len() ==> float_bits::nan(#[trigger] raw[j]),
    ensures
        winner_place(raw) is None,
        winner_name(raw, order) == "—"@,
        best_of(raw) is None,
        finite_place(raw) is None,
{
}

/// The cells of a row of errors: the dataset, each model's error in the models' order, and the winner.
pub proof fn law_cells_of_errors(spec: DatasetSpec, run: CachedRun, order: Seq<ModelId>, i: int)
    requires
        0 <= i < order.len(),
    ensures
        ({
            let mae = report::solo_numbers(run, order, Measure::Mae);
            let row = row_of(Table::Mae, spec, run, order)->0;
            &&& row_of(Table::Mae, spec, run, order) is Some
            &&& row[0] == CellView::Text(spec.name@)
            &&& row[1] == CellView::Text(spec.freq@)
            &&& row[2] == CellView::Text(spec.domain@)
            &&& row[3 + i] == (CellView::Number { bits: mae[i], decimals: 4, best: best_of(mae) })
            &&& row[3 + order.len() as int] == CellView::Text(winner_name(mae, order))
        }),
        ({
            let mase = report::solo_numbers(run, order, Measure::Mase);
            let row = row_of(Table::Mase, spec, run, order)->0;
            &&& row_of(Table::Mase, spec, run, order) is Some
            &&& row[0] == CellView::Text(spec.name@)
            &&& row[1 + i] == (CellView::Number { bits: mase[i], decimals: 3, best: best_of(mase) })
            &&& row[1 + order.len() as int] == CellView::Text(winner_name(mase, order))
        }),
{
}

/// The cells of a row of latencies: the dataset, and each model's milliseconds in the models' order.
pub proof fn law_cells_of_latencies(spec: DatasetSpec, run: CachedRun, order: Seq<ModelId>, i: int)
    requires
        0 <= i < order.len(),
    ensures
        ({
            let row = row_of(Table::Latency, spec, run, order)->0;
            &&& row_of(Table::Latency, spec, run, order) is Some
            &&& row[0] == CellView::Text(spec.name@)
            &&& match cache::solo_among(run.solo@, order[i].name(), 0) {
                Some(s) => row[1 + i] == (CellView::Latency { bits: s.lat_ms, unit: ""@ }),
                None => row[1 + i] == (CellView::Latency { bits: 0x7ff8_0000_0000_0000, unit: ""@ }),
            }
        }),
{
}

/// The best model and the best ensemble side by side, and how far the ensemble is from the model.
/// Without a finite error or without an ensemble there is no such row.
pub proof fn law_cells_of_the_best(spec: DatasetSpec, run: CachedRun, order: Seq<ModelId>, i: int)
    requires
        report::least_finite(report::solo_numbers(run, order, Measure::Mae), i),
    ensures
        run.ensembles@.len() == 0 ==> row_of(Table::Best, spec, run, order) is None,
        run.ensembles@.len() > 0 ==> ({
            let alone = report::solo_numbers(run, order, Measure::Mae)[i];
            let together = run.ensembles@[0].metrics.mae;
            row_of(Table::Best, spec, run, order) == Some(
                seq![
                    CellView::Text(spec.name@),
                    CellView::Text(order[i].name()),
                    CellView::Number { bits: alone, decimals: 4, best: None },
                    CellView::Text(run.ensembles@[0].name@),
                    CellView::Number { bits: together, decimals: 4, best: None },
                    CellView::Difference { of: together, from: alone },
                    CellView::Change { of: together, from: alone },
                ],
            )
        }),
{
    lemma_finite_place(report::solo_numbers(run, order, Measure::Mae), i);
}

/// A table has the rows of the datasets that were run, in the datasets' order, under the key of 512
/// values of context and a horizon of 96.
pub proof fn law_rows_follow_datasets(which: Table, c: Cache, order: Seq<ModelId>, windows: usize, n: nat)
    requires
        n < data::dataset_list().len(),
    ensures
        rows_of(which, c, order, windows, 0).len() == 0,
        ({
            let spec = data::dataset_list()[n as int];
            let key = cache::key_text(spec.name@, 512, 96, windows as nat);
            let row = row_of(which, spec, c.entries()[key], order);
            let before = rows_of(which, c, order, windows, n);
            &&& c.entries().dom().contains(key) && row is Some ==> rows_of(which, c, order, windows, n + 1)
                == before.push(row->0)
            &&& !c.entries().dom().contains(key) || row is None ==> rows_of(which, c, order, windows, n + 1) == before
        }),
        details_of(c, order, windows, 0).len() == 0,
        ({
            let spec = data::dataset_list()[n as int];
            let key = cache::key_text(spec.name@, 512, 96, windows as nat);
            let before = details_of(c, order, windows, n);
            &&& c.entries().dom().contains(key) ==> details_of(c, order, windows, n + 1) == before.push(
                detail_of(spec, c.entries()[key], order),
            )
            &&& !c.entries().dom().contains(key) ==> details_of(c, order, windows, n + 1) == before
        }),
{
}

/// What is swept: the horizon at 512 values of context, or the context at a horizon of 96.
pub proof fn law_sweeps_change_one_length(c: Cache, model: ModelId, windows: usize, p: int)
    requires
        0 <= p < 4,
    ensures
        swept(Axis::Horizon, p) == (512usize, seq![96usize, 192usize, 336usize, 720usize][p]),
        swept(Axis::Context, p) == (seq![96usize, 256usize, 512usize, 1024usize][p], 96usize),
        sweep_of(c, model, Axis::Horizon, windows).len() == 4,
        sweep_of(c, model, Axis::Context, windows).len() == 4,
        sweep_of(c, model, Axis::Horizon, windows)[p] == report::sweep_numbers(
            c,
            model,
            512,
            seq![96usize, 192usize, 336usize, 720usize][p],
            windows,
            data::dataset_list().len(),
        ),
        sweep_of(c, model, Axis::Context, windows)[p] == report::sweep_numbers(
            c,
            model,
            seq![96usize, 256usize, 512usize, 1024usize][p],
            96,
            windows,
            data::dataset_list().len(),
        ),
{
}

/// The cells of a sweep: the model's label and the mean of each length, with the best one marked.
pub proof fn law_cells_of_sweeps(model: ModelId, means: Seq<u64>, i: int)
    requires
        0 <= i < means.len(),
    ensures
        sweep_row_of(model, means).len() == means.len() + 1,
        sweep_row_of(model, means)[0] == CellView::Text(model.label_text()),
        sweep_row_of(model, means)[1 + i] == (CellView::Number {
            bits: means[i],
            decimals: 3,
            best: best_of(means),
        }),
{
}

/// The cells of a model's own row, and that each model with a result has its row, in order.
pub proof fn law_cells_of_models(run: CachedRun, order: Seq<ModelId>, s: SoloResult, best: Option<u64>, n: nat)
    requires
        n < order.len(),
    ensures
        solo_cells(order[n as int], s, best) == seq![
            CellView::Text(order[n as int].name()),
            CellView::Number { bits: s.metrics.mae, decimals: 4, best },
            CellView::Number { bits: s.metrics.rmse, decimals: 4, best: None },
            CellView::Number { bits: s.metrics.mase, decimals: 3, best: None },
            CellView::Latency { bits: s.lat_ms, unit: "ms"@ },
        ],
        solo_rows_of(run, order, best, 0).len() == 0,
        cache::solo_among(run.solo@, order[n as int].name(), 0) == Some(s) ==> solo_rows_of(run, order, best, n + 1)
            == solo_rows_of(run, order, best, n).push(solo_cells(order[n as int], s, best)),
        cache::solo_among(run.solo@, order[n as int].name(), 0) is None ==> solo_rows_of(run, order, best, n + 1)
            == solo_rows_of(run, order, best, n),
{
}

/// The first ten ensembles are told of, each with its errors and how far it is from the best model.
pub proof fn law_cells_of_ensembles(run: CachedRun, from: u64, i: int)
    ensures
        ensemble_rows_of(run, from).len() <= 10,
        ensemble_rows_of(run, from).len() == 10 || ensemble_rows_of(run, from).len() == run.ensembles@.len(),
        0 <= i < ensemble_rows_of(run, from).len() ==> ensemble_rows_of(run, from)[i] == seq![
            CellView::Text(run.ensembles@[i].name@),
            CellView::Number { bits: run.ensembles@[i].metrics.mae, decimals: 4, best: None },
            CellView::Number { bits: run.ensembles@[i].metrics.rmse, decimals: 4, best: None },
            CellView::Number { bits: run.ensembles@[i].metrics.mase, decimals: 3, best: None },
            CellView::Difference { of: run.ensembles@[i].metrics.mae, from },
        ],
{
}

/// What is told of a dataset: its lengths, each model that has a result, and its ensembles measured
/// against the best model, or against infinity where no model has a finite error.
pub proof fn law_details_of_datasets(spec: DatasetSpec, run: CachedRun, order: Seq<ModelId>, i: int)
    ensures
        detail_of(spec, run, order).spec == spec,
        detail_of(spec, run, order).series_len == run.series_len,
        detail_of(spec, run, order).test_rows == run.test_rows,
        report::least_finite(report::solo_numbers(run, order, Measure::Mae), i) ==> ({
            let best = report::solo_numbers(run, order, Measure::Mae)[i];
            &&& detail_of(spec, run, order).solo == solo_rows_of(run, order, Some(best), order.len())
            &&& detail_of(spec, run, order).ensembles == ensemble_rows_of(run, best)
        }),
        (forall|j: int| !report::least_finite(report::solo_numbers(run, order, Measure::Mae), j)) ==> ({
            &&& detail_of(spec, run, order).solo == solo_rows_of(run, order, None, order.len())
            &&& detail_of(spec, run, order).ensembles == ensemble_rows_of(run, 0x7ff0_0000_0000_0000)
        }),
{
    if report::least_finite(report::solo_numbers(run, order, Measure::Mae), i) {
        lemma_finite_place(report::solo_numbers(run, order, Measure::Mae), i);
    }
}

} // verus!
