//! The report: what is run for it, what is picked out of the results, and its text.
//!
//! Numbers come as the bits of doubles, by which they are compared, and as the text in which they are
//! shown; making the text of a number is not done here.

use vstd::prelude::*;

use crate::bench::cache;
use crate::bench::cache::{Cache, CachedRun, SoloResult};
use crate::bench::data;
use crate::bench::data::DatasetSpec;
use crate::bench::ensemble;
use crate::bench::ensemble::Method;
use crate::bench::model_id::ModelId;
use crate::bench::table;
use crate::float_bits;
use crate::text;

verus! {

/// The context length of the main evaluation.
pub const MAIN_CONTEXT: usize = 512;

/// The horizon of the main evaluation.
pub const MAIN_HORIZON: usize = 96;

/// How many combinations are listed for a dataset.
pub const TOP_N_ENSEMBLES: usize = 10;

/// The bits of a double that is not a number.
pub const NOT_A_NUMBER: u64 = 0x7ff8_0000_0000_0000;

/// The horizons that are swept.
pub open spec fn horizon_list() -> Seq<usize> {
    seq![96, 192, 336, 720]
}

/// The context lengths that are swept.
pub open spec fn context_list() -> Seq<usize> {
    seq![96, 256, 512, 1024]
}

/// The horizons that are swept.
pub fn horizons() -> (r: Vec<usize>)
    ensures
        r@ == horizon_list(),
{
    let r: Vec<usize> = vec![96, 192, 336, 720];
    assert(r@ =~= horizon_list());
    r
}

/// The context lengths that are swept.
pub fn contexts() -> (r: Vec<usize>)
    ensures
        r@ == context_list(),
{
    let r: Vec<usize> = vec![96, 256, 512, 1024];
    assert(r@ =~= context_list());
    r
}

/// What is run: a dataset, by its name, with a context length, a horizon and a number of windows.
#[derive(Debug, Clone, Copy)]
pub struct Config {
    pub dataset: &'static str,
    pub context: usize,
    pub horizon: usize,
    pub windows: usize,
}

impl Config {
    /// The key of the results.
    pub open spec fn key(self) -> Seq<char> {
        cache::key_text(self.dataset@, self.context as nat, self.horizon as nat, self.windows as nat)
    }
}

/// The main evaluation: every dataset once.
pub open spec fn main_configs(windows: usize) -> Seq<Config> {
    Seq::new(
        data::dataset_list().len(),
        |i: int|
            Config {
                dataset: data::dataset_list()[i].name,
                context: MAIN_CONTEXT,
                horizon: MAIN_HORIZON,
                windows,
            },
    )
}

/// The sweep over horizons: every dataset with each of them.
pub open spec fn horizon_configs(windows: usize) -> Seq<Config> {
    Seq::new(
        data::dataset_list().len() * 4,
        |i: int|
            Config {
                dataset: data::dataset_list()[i / 4].name,
                context: MAIN_CONTEXT,
                horizon: horizon_list()[i % 4],
                windows,
            },
    )
}

/// The sweep over context lengths: every dataset with each of them.
pub open spec fn context_configs(windows: usize) -> Seq<Config> {
    Seq::new(
        data::dataset_list().len() * 4,
        |i: int|
            Config {
                dataset: data::dataset_list()[i / 4].name,
                context: context_list()[i % 4],
                horizon: MAIN_HORIZON,
                windows,
            },
    )
}

/// The main evaluation: every dataset once.
pub fn main_phase(windows: usize) -> (r: Vec<Config>)
    ensures
        r@ == main_configs(windows),
{
    let all: Vec<DatasetSpec> = data::datasets();
    let mut out: Vec<Config> = Vec::new();
    let mut i: usize = 0;
    while i < all.len()
        invariant
            i <= all@.len(),
            all@ == data::dataset_list(),
            out@.len() == i,
            forall|q: int| 0 <= q < i ==> #[trigger] out@[q] == main_configs(windows)[q],
        decreases all@.len() - i,
    {
        out.push(
            Config { dataset: all[i].name, context: MAIN_CONTEXT, horizon: MAIN_HORIZON, windows },
        );
        i += 1;
    }
    assert(out@ =~= main_configs(windows));
    out
}

/// The sweep over horizons: every dataset with each of them.
pub fn horizon_phase(windows: usize) -> (r: Vec<Config>)
    ensures
        r@ == horizon_configs(windows),
{
    let all: Vec<DatasetSpec> = data::datasets();
    let values: Vec<usize> = horizons();
    let mut out: Vec<Config> = Vec::new();
    let mut i: usize = 0;
    while i < 84
        invariant
            i <= 84,
            all@ == data::dataset_list(),
            values@ == horizon_list(),
            out@.len() == i,
            forall|q: int| 0 <= q < i ==> #[trigger] out@[q] == horizon_configs(windows)[q],
        decreases 84 - i,
    {
        out.push(
            Config { dataset: all[i / 4].name, context: MAIN_CONTEXT, horizon: values[i % 4], windows },
        );
        i += 1;
    }
    assert(out@ =~= horizon_configs(windows));
    out
}

/// The sweep over context lengths: every dataset with each of them.
pub fn context_phase(windows: usize) -> (r: Vec<Config>)
    ensures
        r@ == context_configs(windows),
{
    let all: Vec<DatasetSpec> = data::datasets();
    let values: Vec<usize> = contexts();
    let mut out: Vec<Config> = Vec::new();
    let mut i: usize = 0;
    while i < 84
        invariant
            i <= 84,
            all@ == data::dataset_list(),
            values@ == context_list(),
            out@.len() == i,
            forall|q: int| 0 <= q < i ==> #[trigger] out@[q] == context_configs(windows)[q],
        decreases 84 - i,
    {
        out.push(
            Config { dataset: all[i / 4].name, context: values[i % 4], horizon: MAIN_HORIZON, windows },
        );
        i += 1;
    }
    assert(out@ =~= context_configs(windows));
    out
}

/// The configurations that have no results yet, in their order.
pub open spec fn missing(c: Cache, configs: Seq<Config>) -> Seq<Config> {
    configs.filter(|g: Config| !c.entries().dom().contains(g.key()))
}

/// The configurations that have no results yet, in their order.
pub fn todo(c: &Cache, configs: &Vec<Config>) -> (r: Vec<Config>)
    requires
        c.wf(),
    ensures
        r@ == missing(*c, configs@),
{
    let mut out: Vec<Config> = Vec::new();
    let mut i: usize = 0;
    proof {
        reveal(Seq::filter);
        assert(configs@.take(0) =~= Seq::empty());
        assert(missing(*c, configs@.take(0)) =~= Seq::empty());
    }
    while i < configs.len()
        invariant
            i <= configs@.len(),
            c.wf(),
            out@ == missing(*c, configs@.take(i as int)),
        decreases configs@.len() - i,
    {
        let g: Config = configs[i];
        let k: String = cache::key(g.dataset, g.context, g.horizon, g.windows);
        let ghost next = configs@.take(i + 1);
        proof {
            reveal(Seq::filter);
            assert(next.drop_last() =~= configs@.take(i as int));
            assert(next.last() == g);
        }
        match c.get(k.as_str()) {
            Some(_) => {},
            None => {
                out.push(g);
            },
        }
        i += 1;
    }
    assert(configs@.take(i as int) =~= configs@);
    out
}

/// Which number of a model's results is meant.
#[derive(Debug, Clone, Copy, PartialEq, Eq, Structural)]
pub enum Measure {
    Mae,
    Mase,
}

/// The number of a model's results.
pub open spec fn measured(s: SoloResult, which: Measure) -> u64 {
    match which {
        Measure::Mae => s.metrics.mae,
        Measure::Mase => s.metrics.mase,
    }
}

/// The models' numbers, in the order of the models; none for a model without results.
pub open spec fn solo_numbers(run: CachedRun, order: Seq<ModelId>, which: Measure) -> Seq<u64> {
    order.map_values(
        |m: ModelId|
            match cache::solo_among(run.solo@, m.name(), 0) {
                Some(s) => measured(s, which),
                None => NOT_A_NUMBER,
            },
    )
}

/// The models' numbers, in the order of the models.
pub fn solo_values(run: &CachedRun, order: &[ModelId], which: Measure) -> (r: Vec<u64>)
    ensures
        r@ == solo_numbers(*run, order@, which),
{
    let mut out: Vec<u64> = Vec::new();
    let mut i: usize = 0;
    while i < order.len()
        invariant
            i <= order@.len(),
            out@.len() == i,
            forall|q: int| 0 <= q < i ==> #[trigger] out@[q] == solo_numbers(*run, order@, which)[q],
        decreases order@.len() - i,
    {
        let v: u64 = match run.solo_of(order[i].as_str()) {
            Some(s) => match which {
                Measure::Mae => s.metrics.mae,
                Measure::Mase => s.metrics.mase,
            },
            None => NOT_A_NUMBER,
        };
        out.push(v);
        i += 1;
    }
    assert(out@ =~= solo_numbers(*run, order@, which));
    out
}

/// Place `i` is the first of the least numbers.
pub open spec fn least_number(raw: Seq<u64>, i: int) -> bool {
    &&& 0 <= i < raw.len()
    &&& !float_bits::nan(raw[i])
    &&& forall|j: int|
        0 <= j < raw.len() && j != i && !float_bits::nan(raw[j]) ==> #[trigger] float_bits::sorts_before(raw, i, j)
}

/// Place `i` is the first of the least finite numbers.
pub open spec fn least_finite(raw: Seq<u64>, i: int) -> bool {
    &&& 0 <= i < raw.len()
    &&& float_bits::finite(raw[i])
    &&& forall|j: int|
        0 <= j < raw.len() && j != i && float_bits::finite(raw[j]) ==> #[trigger] float_bits::sorts_before(raw, i, j)
}

/// The first of the least numbers, leaving out those that are not numbers.
pub fn winner(raw: &[u64]) -> (r: Option<usize>)
    ensures
        match r {
            Some(i) => least_number(raw@, i as int),
            None => forall|j: int| 0 <= j < raw@.len() ==> float_bits::nan(#[trigger] raw@[j]),
        },
{
    let mut keep: Vec<bool> = Vec::new();
    let mut i: usize = 0;
    while i < raw.len()
        invariant
            i <= raw@.len(),
            keep@.len() == i,
            forall|q: int| 0 <= q < i ==> #[trigger] keep@[q] == !float_bits::nan(raw@[q]),
        decreases raw@.len() - i,
    {
        keep.push(!float_bits::is_nan(raw[i]));
        i += 1;
    }
    let r: Option<usize> = float_bits::first_least(raw, keep.as_slice());
    proof {
        match r {
            Some(k) => {
                assert forall|j: int| 0 <= j < raw@.len() && j != k && !float_bits::nan(
                    raw@[j],
                ) implies #[trigger] float_bits::sorts_before(raw@, k as int, j) by {
                    assert(keep@[j]);
                }
            },
            None => {
                assert forall|j: int| 0 <= j < raw@.len() implies float_bits::nan(#[trigger] raw@[j]) by {
                    assert(!keep@[j]);
                }
            },
        }
    }
    r
}

/// The first of the least finite numbers.
pub fn best_solo(raw: &[u64]) -> (r: Option<usize>)
    ensures
        match r {
            Some(i) => least_finite(raw@, i as int),
            None => forall|j: int| 0 <= j < raw@.len() ==> !float_bits::finite(#[trigger] raw@[j]),
        },
{
    let mut keep: Vec<bool> = Vec::new();
    let mut i: usize = 0;
    while i < raw.len()
        invariant
            i <= raw@.len(),
            keep@.len() == i,
            forall|q: int| 0 <= q < i ==> #[trigger] keep@[q] == float_bits::finite(raw@[q]),
        decreases raw@.len() - i,
    {
        keep.push(float_bits::is_finite(raw[i]));
        i += 1;
    }
    let r: Option<usize> = float_bits::first_least(raw, keep.as_slice());
    proof {
        match r {
            Some(k) => {
                assert forall|j: int| 0 <= j < raw@.len() && j != k && float_bits::finite(
                    raw@[j],
                ) implies #[trigger] float_bits::sorts_before(raw@, k as int, j) by {
                    assert(keep@[j]);
                }
            },
            None => {
                assert forall|j: int| 0 <= j < raw@.len() implies !float_bits::finite(#[trigger] raw@[j]) by {
                    assert(!keep@[j]);
                }
            },
        }
    }
    r
}

/// The scale-free errors of a model on the first `n` datasets, as far as they have finite ones.
pub open spec fn sweep_numbers(
    c: Cache,
    model: ModelId,
    context: usize,
    horizon: usize,
    windows: usize,
    n: nat,
) -> Seq<u64>
    decreases n,
{
    if n == 0 {
        Seq::empty()
    } else {
        let before = sweep_numbers(c, model, context, horizon, windows, (n - 1) as nat);
        let key = cache::key_text(
            data::dataset_list()[n - 1].name@,
            context as nat,
            horizon as nat,
            windows as nat,
        );
        if c.entries().dom().contains(key) {
            match cache::solo_among(c.entries()[key].solo@, model.name(), 0) {
                Some(s) => if float_bits::finite(s.metrics.mase) {
                    before.push(s.metrics.mase)
                } else {
                    before
                },
                None => before,
            }
        } else {
            before
        }
    }
}

/// The finite scale-free errors of a model over all datasets.
pub fn sweep_values(c: &Cache, model: ModelId, context: usize, horizon: usize, windows: usize) -> (r: Vec<u64>)
    requires
        c.wf(),
    ensures
        r@ == sweep_numbers(*c, model, context, horizon, windows, data::dataset_list().len()),
{
    let all: Vec<DatasetSpec> = data::datasets();
    let mut out: Vec<u64> = Vec::new();
    let mut i: usize = 0;
    assert(out@ =~= sweep_numbers(*c, model, context, horizon, windows, 0));
    while i < all.len()
        invariant
            i <= all@.len(),
            all@ == data::dataset_list(),
            c.wf(),
            out@ == sweep_numbers(*c, model, context, horizon, windows, i as nat),
        decreases all@.len() - i,
    {
        let k: String = cache::key(all[i].name, context, horizon, windows);
        match c.get(k.as_str()) {
            Some(run) => match run.solo_of(model.as_str()) {
                Some(s) => {
                    if float_bits::is_finite(s.metrics.mase) {
                        out.push(s.metrics.mase);
                    }
                },
                None => {},
            },
            None => {},
        }
        i += 1;
    }
    out
}

/// The text of a number, and a dash for what is not a number.
pub open spec fn shown_text(bits: u64, number: Seq<char>) -> Seq<char> {
    if float_bits::nan(bits) {
        "—"@
    } else {
        number
    }
}

/// The text of a number, and a dash for what is not a number.
pub fn shown(bits: u64, number: &str) -> (r: String)
    ensures
        r@ == shown_text(bits, number@),
{
    if float_bits::is_nan(bits) {
        "—".to_string()
    } else {
        number.to_string()
    }
}

/// The text of a latency with its unit, and a dash for one that is not finite.
pub open spec fn latency_text(bits: u64, number: Seq<char>, unit: Seq<char>) -> Seq<char> {
    if float_bits::finite(bits) {
        number + unit
    } else {
        "—"@
    }
}

/// The text of a latency with its unit, and a dash for one that is not finite.
pub fn latency(bits: u64, number: &str, unit: &str) -> (r: String)
    ensures
        r@ == latency_text(bits, number@, unit@),
{
    if float_bits::is_finite(bits) {
        text::join2(number, unit)
    } else {
        "—".to_string()
    }
}

/// A cell, in bold where it is the best.
pub open spec fn bold_text(cell: Seq<char>, best: bool) -> Seq<char> {
    if best {
        "**"@ + cell + "**"@
    } else {
        cell
    }
}

/// A cell, in bold where it is the best.
pub fn bold(cell: &str, best: bool) -> (r: String)
    ensures
        r@ == bold_text(cell@, best),
{
    if best {
        let mut s: String = text::join2("**", cell);
        s.append("**");
        s
    } else {
        cell.to_string()
    }
}

/// Which way the error went.
pub open spec fn change_text(delta: u64, percent: Seq<char>) -> Seq<char> {
    (if float_bits::greater(0, delta) {
        "↓ "@
    } else {
        "↑ "@
    }) + percent + "%"@
}

/// Which way the error went, and by how many percent.
pub fn change(delta: u64, percent: &str) -> (r: String)
    ensures
        r@ == change_text(delta, percent@),
{
    let arrow: &str = if float_bits::is_greater(0, delta) {
        "↓ "
    } else {
        "↑ "
    };
    let mut s: String = text::join2(arrow, percent);
    s.append("%");
    s
}

/// How many combinations of a dataset are listed.
pub fn listed(run: &CachedRun) -> (r: usize)
    ensures
        r == (if run.ensembles@.len() < TOP_N_ENSEMBLES {
            run.ensembles@.len()
        } else {
            TOP_N_ENSEMBLES as nat
        }),
{
    if run.ensembles.len() < TOP_N_ENSEMBLES {
        run.ensembles.len()
    } else {
        TOP_N_ENSEMBLES
    }
}

/// The details of a dataset.
#[derive(Debug)]
pub struct Detail {
    pub name: String,
    pub freq: String,
    pub domain: String,
    pub series_len: usize,
    pub test_rows: usize,
    /// The rows of the models.
    pub solo: Vec<Vec<String>>,
    /// The rows of the combinations.
    pub ensembles: Vec<Vec<String>>,
}

/// What the details of a dataset hold.
pub struct DetailView {
    pub name: Seq<char>,
    pub freq: Seq<char>,
    pub domain: Seq<char>,
    pub series_len: usize,
    pub test_rows: usize,
    pub solo: Seq<Seq<Seq<char>>>,
    pub ensembles: Seq<Seq<Seq<char>>>,
}

impl View for Detail {
    type V = DetailView;

    open spec fn view(&self) -> DetailView {
        DetailView {
            name: self.name@,
            freq: self.freq@,
            domain: self.domain@,
            series_len: self.series_len,
            test_rows: self.test_rows,
            solo: table::row_texts(self.solo@),
            ensembles: table::row_texts(self.ensembles@),
        }
    }
}

/// The rows of the report's tables.
#[derive(Debug)]
pub struct ReportTables {
    pub mae: Vec<Vec<String>>,
    pub mase: Vec<Vec<String>>,
    pub latency: Vec<Vec<String>>,
    pub best: Vec<Vec<String>>,
    pub by_horizon: Vec<Vec<String>>,
    pub by_context: Vec<Vec<String>>,
    pub details: Vec<Detail>,
}

/// The labels of models.
pub open spec fn labels(order: Seq<ModelId>) -> Seq<Seq<char>> {
    order.map_values(|m: ModelId| m.label_text())
}

fn push_labels(out: &mut Vec<String>, order: &[ModelId])
    ensures
        table::texts(final(out)@) == table::texts(old(out)@) + labels(order@),
{
    let mut i: usize = 0;
    assert(table::texts(out@) =~= table::texts(old(out)@) + labels(order@).take(0));
    while i < order.len()
        invariant
            i <= order@.len(),
            table::texts(out@) == table::texts(old(out)@) + labels(order@).take(i as int),
        decreases order@.len() - i,
    {
        table::push_text(out, order[i].label());
        i += 1;
        assert(table::texts(out@) =~= table::texts(old(out)@) + labels(order@).take(i as int));
    }
    assert(labels(order@).take(i as int) =~= labels(order@));
}

/// The rows of the table of models.
pub open spec fn model_rows(order: Seq<ModelId>) -> Seq<Seq<Seq<char>>> {
    order.map_values(|m: ModelId| seq![m.label_text(), m.architecture()])
}

/// The table of models.
pub open spec fn model_table_text(order: Seq<ModelId>) -> Seq<char> {
    table::table_text(seq!["Model"@, "Architecture"@], model_rows(order))
}

fn model_table(order: &[ModelId]) -> (r: String)
    ensures
        r@ == model_table_text(order@),
{
    let mut headers: Vec<String> = Vec::new();
    table::push_text(&mut headers, "Model");
    table::push_text(&mut headers, "Architecture");
    assert(table::texts(headers@) =~= seq!["Model"@, "Architecture"@]);
    let mut rows: Vec<Vec<String>> = Vec::new();
    let mut i: usize = 0;
    while i < order.len()
        invariant
            i <= order@.len(),
            rows@.len() == i,
            forall|q: int| 0 <= q < i ==> table::texts((#[trigger] rows@[q])@) == model_rows(order@)[q],
        decreases order@.len() - i,
    {
        let mut row: Vec<String> = Vec::new();
        table::push_text(&mut row, order[i].label());
        table::push_text(&mut row, order[i].arch());
        assert(table::texts(row@) =~= model_rows(order@)[i as int]);
        rows.push(row);
        i += 1;
    }
    assert(table::row_texts(rows@) =~= model_rows(order@));
    table::md_table(&headers, &rows)
}

/// The rows of the table of strategies.
pub open spec fn strategy_rows() -> Seq<Seq<Seq<char>>> {
    ensemble::all_methods().map_values(|m: Method| seq!["`("@ + m.short() + ")`"@, m.description()])
}

/// The table of strategies.
pub open spec fn strategy_table_text() -> Seq<char> {
    table::table_text(seq!["Symbol"@, "Strategy"@], strategy_rows())
}

fn strategy_table() -> (r: String)
    ensures
        r@ == strategy_table_text(),
{
    let mut headers: Vec<String> = Vec::new();
    table::push_text(&mut headers, "Symbol");
    table::push_text(&mut headers, "Strategy");
    assert(table::texts(headers@) =~= seq!["Symbol"@, "Strategy"@]);
    let methods: Vec<Method> = Method::all();
    let mut rows: Vec<Vec<String>> = Vec::new();
    let mut i: usize = 0;
    while i < methods.len()
        invariant
            i <= methods@.len(),
            methods@ == ensemble::all_methods(),
            rows@.len() == i,
            forall|q: int| 0 <= q < i ==> table::texts((#[trigger] rows@[q])@) == strategy_rows()[q],
        decreases methods@.len() - i,
    {
        let mut row: Vec<String> = Vec::new();
        let mut symbol: String = text::join2("`(", methods[i].symbol());
        symbol.append(")`");
        table::push_text(&mut row, symbol.as_str());
        table::push_text(&mut row, methods[i].desc());
        assert(table::texts(row@) =~= strategy_rows()[i as int]);
        rows.push(row);
        i += 1;
    }
    assert(table::row_texts(rows@) =~= strategy_rows());
    table::md_table(&headers, &rows)
}

/// The headers of the table of mean errors.
pub open spec fn mae_headers_of(order: Seq<ModelId>) -> Seq<Seq<char>> {
    seq!["Dataset"@, "Freq"@, "Domain"@] + labels(order) + seq!["Winner"@]
}

fn mae_headers(order: &[ModelId]) -> (r: Vec<String>)
    ensures
        table::texts(r@) == mae_headers_of(order@),
{
    let mut out: Vec<String> = Vec::new();
    table::push_text(&mut out, "Dataset");
    table::push_text(&mut out, "Freq");
    table::push_text(&mut out, "Domain");
    push_labels(&mut out, order);
    table::push_text(&mut out, "Winner");
    assert(table::texts(out@) =~= mae_headers_of(order@));
    out
}

/// The headers of the table of scale-free errors.
pub open spec fn mase_headers_of(order: Seq<ModelId>) -> Seq<Seq<char>> {
    seq!["Dataset"@] + labels(order) + seq!["Winner"@]
}

fn mase_headers(order: &[ModelId]) -> (r: Vec<String>)
    ensures
        table::texts(r@) == mase_headers_of(order@),
{
    let mut out: Vec<String> = Vec::new();
    table::push_text(&mut out, "Dataset");
    push_labels(&mut out, order);
    table::push_text(&mut out, "Winner");
    assert(table::texts(out@) =~= mase_headers_of(order@));
    out
}

/// The headers of the table of latencies.
pub open spec fn latency_headers_of(order: Seq<ModelId>) -> Seq<Seq<char>> {
    seq!["Dataset"@] + labels(order)
}

fn latency_headers(order: &[ModelId]) -> (r: Vec<String>)
    ensures
        table::texts(r@) == latency_headers_of(order@),
{
    let mut out: Vec<String> = Vec::new();
    table::push_text(&mut out, "Dataset");
    push_labels(&mut out, order);
    assert(table::texts(out@) =~= latency_headers_of(order@));
    out
}

/// The headers of the table of the best combinations.
pub open spec fn best_headers_of() -> Seq<Seq<char>> {
    seq!["Dataset"@, "Best Solo"@, "Solo MAE"@, "Best Ensemble"@, "Ensemble MAE"@, "Δ MAE"@, "Change"@]
}

fn best_headers() -> (r: Vec<String>)
    ensures
        table::texts(r@) == best_headers_of(),
{
    let mut out: Vec<String> = Vec::new();
    table::push_text(&mut out, "Dataset");
    table::push_text(&mut out, "Best Solo");
    table::push_text(&mut out, "Solo MAE");
    table::push_text(&mut out, "Best Ensemble");
    table::push_text(&mut out, "Ensemble MAE");
    table::push_text(&mut out, "Δ MAE");
    table::push_text(&mut out, "Change");
    assert(table::texts(out@) =~= best_headers_of());
    out
}

/// The headers of the table of horizons.
pub open spec fn horizon_headers_of() -> Seq<Seq<char>> {
    seq!["Model"@, "h=96"@, "h=192"@, "h=336"@, "h=720"@]
}

fn horizon_headers() -> (r: Vec<String>)
    ensures
        table::texts(r@) == horizon_headers_of(),
{
    let mut out: Vec<String> = Vec::new();
    table::push_text(&mut out, "Model");
    table::push_text(&mut out, "h=96");
    table::push_text(&mut out, "h=192");
    table::push_text(&mut out, "h=336");
    table::push_text(&mut out, "h=720");
    assert(table::texts(out@) =~= horizon_headers_of());
    out
}

/// The headers of the table of context lengths.
pub open spec fn context_headers_of() -> Seq<Seq<char>> {
    seq!["Model"@, "ctx=96"@, "ctx=256"@, "ctx=512"@, "ctx=1024"@]
}

fn context_headers() -> (r: Vec<String>)
    ensures
        table::texts(r@) == context_headers_of(),
{
    let mut out: Vec<String> = Vec::new();
    table::push_text(&mut out, "Model");
    table::push_text(&mut out, "ctx=96");
    table::push_text(&mut out, "ctx=256");
    table::push_text(&mut out, "ctx=512");
    table::push_text(&mut out, "ctx=1024");
    assert(table::texts(out@) =~= context_headers_of());
    out
}

/// The headers of a table of models.
pub open spec fn solo_headers_of() -> Seq<Seq<char>> {
    seq!["Model"@, "MAE"@, "RMSE"@, "MASE"@, "Latency"@]
}

fn solo_headers() -> (r: Vec<String>)
    ensures
        table::texts(r@) == solo_headers_of(),
{
    let mut out: Vec<String> = Vec::new();
    table::push_text(&mut out, "Model");
    table::push_text(&mut out, "MAE");
    table::push_text(&mut out, "RMSE");
    table::push_text(&mut out, "MASE");
    table::push_text(&mut out, "Latency");
    assert(table::texts(out@) =~= solo_headers_of());
    out
}

/// The headers of a table of combinations.
pub open spec fn ensemble_headers_of() -> Seq<Seq<char>> {
    seq!["Ensemble"@, "MAE"@, "RMSE"@, "MASE"@, "Δ vs best solo"@]
}

fn ensemble_headers() -> (r: Vec<String>)
    ensures
        table::texts(r@) == ensemble_headers_of(),
{
    let mut out: Vec<String> = Vec::new();
    table::push_text(&mut out, "Ensemble");
    table::push_text(&mut out, "MAE");
    table::push_text(&mut out, "RMSE");
    table::push_text(&mut out, "MASE");
    table::push_text(&mut out, "Δ vs best solo");
    assert(table::texts(out@) =~= ensemble_headers_of());
    out
}

/// What the report is about.
pub open spec fn preface_text(date: Seq<char>, main_windows: usize, sweep_windows: usize, order: Seq<ModelId>) -> Seq<char> {
    "# Time Series Forecasting Benchmark\n\n**Date:** "@
        + date
        + "  \n**Main evaluation:** context=512, horizon=96, "@
        + text::decimal(main_windows as nat)
        + " rolling windows  \n**Sweep evaluations:** "@
        + text::decimal(sweep_windows as nat)
        + " rolling windows  \n**Metric:** MAE (lower is better); MASE for cross-dataset comparison (scale-free)\n\n**Models:**\n\n"@
        + model_table_text(order)
        + "\n**Ensemble strategies (all non-trivial subsets, size ≥ 2):**\n\n"@
        + strategy_table_text()
        + "\n---\n\n## Table of Contents\n\n1. [Individual Models — MAE](#individual-models--mae)\n2. [Individual Models — MASE](#individual-models--mase-scale-free)\n3. [Inference Latency](#inference-latency)\n4. [Best Ensemble vs Best Solo](#best-ensemble-vs-best-solo)\n5. [Horizon Scaling](#horizon-scaling)\n6. [Context Length Scaling](#context-length-scaling)\n7. [Per-Dataset Detail](#per-dataset-detail)\n8. [Methodology](#methodology)\n\n---\n\n"@
}

fn preface(date: &str, main_windows: usize, sweep_windows: usize, order: &[ModelId]) -> (r: String)
    ensures
        r@ == preface_text(date@, main_windows, sweep_windows, order@),
{
    let mut out: String = "# Time Series Forecasting Benchmark\n\n**Date:** ".to_string();
    out.append(date);
    out.append("  \n**Main evaluation:** context=512, horizon=96, ");
    text::push_decimal(&mut out, main_windows as u64);
    out.append(" rolling windows  \n**Sweep evaluations:** ");
    text::push_decimal(&mut out, sweep_windows as u64);
    out.append(" rolling windows  \n**Metric:** MAE (lower is better); MASE for cross-dataset comparison (scale-free)\n\n**Models:**\n\n");
    let model_table_md: String = model_table(order);
    out.append(model_table_md.as_str());
    out.append("\n**Ensemble strategies (all non-trivial subsets, size ≥ 2):**\n\n");
    let strategy_table_md: String = strategy_table();
    out.append(strategy_table_md.as_str());
    out.append("\n---\n\n## Table of Contents\n\n1. [Individual Models — MAE](#individual-models--mae)\n2. [Individual Models — MASE](#individual-models--mase-scale-free)\n3. [Inference Latency](#inference-latency)\n4. [Best Ensemble vs Best Solo](#best-ensemble-vs-best-solo)\n5. [Horizon Scaling](#horizon-scaling)\n6. [Context Length Scaling](#context-length-scaling)\n7. [Per-Dataset Detail](#per-dataset-detail)\n8. [Methodology](#methodology)\n\n---\n\n");
    out
}

/// The section on mean errors.
pub open spec fn mae_section_text(main_windows: usize, order: Seq<ModelId>, rows: Seq<Seq<Seq<char>>>) -> Seq<char> {
    "## Individual Models — MAE\n\n> context=512, horizon=96, "@
        + text::decimal(main_windows as nat)
        + " windows. **Bold** = best on that dataset.\n\n"@
        + table::table_text(mae_headers_of(order), rows)
        + "\n"@
}

fn mae_section(main_windows: usize, order: &[ModelId], rows: &Vec<Vec<String>>) -> (r: String)
    ensures
        r@ == mae_section_text(main_windows, order@, table::row_texts(rows@)),
{
    let mut out: String = "## Individual Models — MAE\n\n> context=512, horizon=96, ".to_string();
    text::push_decimal(&mut out, main_windows as u64);
    out.append(" windows. **Bold** = best on that dataset.\n\n");
    let headers: Vec<String> = mae_headers(order);
    let rendered: String = table::md_table(&headers, rows);
    out.append(rendered.as_str());
    out.append("\n");
    out
}

/// The section on scale-free errors.
pub open spec fn mase_section_text(order: Seq<ModelId>, rows: Seq<Seq<Seq<char>>>) -> Seq<char> {
    "## Individual Models — MASE (scale-free)\n\n> MASE < 1 means the model beats a naïve 1-step random walk. **Bold** = best.\n\n"@
        + table::table_text(mase_headers_of(order), rows)
        + "\n"@
}

fn mase_section(order: &[ModelId], rows: &Vec<Vec<String>>) -> (r: String)
    ensures
        r@ == mase_section_text(order@, table::row_texts(rows@)),
{
    let mut out: String = "## Individual Models — MASE (scale-free)\n\n> MASE < 1 means the model beats a naïve 1-step random walk. **Bold** = best.\n\n".to_string();
    let headers: Vec<String> = mase_headers(order);
    let rendered: String = table::md_table(&headers, rows);
    out.append(rendered.as_str());
    out.append("\n");
    out
}

/// The section on latencies.
pub open spec fn latency_section_text(order: Seq<ModelId>, rows: Seq<Seq<Seq<char>>>) -> Seq<char> {
    "## Inference Latency\n\n> Milliseconds per window (context=512, horizon=96).\n\n"@
        + table::table_text(latency_headers_of(order), rows)
        + "\n"@
}

fn latency_section(order: &[ModelId], rows: &Vec<Vec<String>>) -> (r: String)
    ensures
        r@ == latency_section_text(order@, table::row_texts(rows@)),
{
    let mut out: String = "## Inference Latency\n\n> Milliseconds per window (context=512, horizon=96).\n\n".to_string();
    let headers: Vec<String> = latency_headers(order);
    let rendered: String = table::md_table(&headers, rows);
    out.append(rendered.as_str());
    out.append("\n");
    out
}

/// The section on the best combinations.
pub open spec fn best_section_text(rows: Seq<Seq<Seq<char>>>) -> Seq<char> {
    "## Best Ensemble vs Best Solo\n\n> Δ MAE = ensemble MAE − best solo MAE. Negative = ensemble wins.\n\n"@
        + table::table_text(best_headers_of(), rows)
        + "\n---\n\n"@
}

fn best_section(rows: &Vec<Vec<String>>) -> (r: String)
    ensures
        r@ == best_section_text(table::row_texts(rows@)),
{
    let mut out: String = "## Best Ensemble vs Best Solo\n\n> Δ MAE = ensemble MAE − best solo MAE. Negative = ensemble wins.\n\n".to_string();
    let headers: Vec<String> = best_headers();
    let rendered: String = table::md_table(&headers, rows);
    out.append(rendered.as_str());
    out.append("\n---\n\n");
    out
}

/// The section on horizons.
pub open spec fn horizon_section_text(sweep_windows: usize, rows: Seq<Seq<Seq<char>>>) -> Seq<char> {
    "## Horizon Scaling\n\n> context=512 fixed, horizons=[96, 192, 336, 720], "@
        + text::decimal(sweep_windows as nat)
        + " windows. **Bold** = best horizon for that dataset/model.\n\n### Average MASE across all datasets by horizon\n\n"@
        + table::table_text(horizon_headers_of(), rows)
        + "\n---\n\n"@
}

fn horizon_section(sweep_windows: usize, rows: &Vec<Vec<String>>) -> (r: String)
    ensures
        r@ == horizon_section_text(sweep_windows, table::row_texts(rows@)),
{
    let mut out: String = "## Horizon Scaling\n\n> context=512 fixed, horizons=[96, 192, 336, 720], ".to_string();
    text::push_decimal(&mut out, sweep_windows as u64);
    out.append(" windows. **Bold** = best horizon for that dataset/model.\n\n### Average MASE across all datasets by horizon\n\n");
    let headers: Vec<String> = horizon_headers();
    let rendered: String = table::md_table(&headers, rows);
    out.append(rendered.as_str());
    out.append("\n---\n\n");
    out
}

/// The section on context lengths.
pub open spec fn context_section_text(sweep_windows: usize, rows: Seq<Seq<Seq<char>>>) -> Seq<char> {
    "## Context Length Scaling\n\n> horizon=96 fixed, contexts=[96, 256, 512, 1024], "@
        + text::decimal(sweep_windows as nat)
        + " windows. **Bold** = best context for that dataset/model.\n\n### Average MASE across all datasets by context length\n\n"@
        + table::table_text(context_headers_of(), rows)
        + "\n---\n\n"@
}

fn context_section(sweep_windows: usize, rows: &Vec<Vec<String>>) -> (r: String)
    ensures
        r@ == context_section_text(sweep_windows, table::row_texts(rows@)),
{
    let mut out: String = "## Context Length Scaling\n\n> horizon=96 fixed, contexts=[96, 256, 512, 1024], ".to_string();
    text::push_decimal(&mut out, sweep_windows as u64);
    out.append(" windows. **Bold** = best context for that dataset/model.\n\n### Average MASE across all datasets by context length\n\n");
    let headers: Vec<String> = context_headers();
    let rendered: String = table::md_table(&headers, rows);
    out.append(rendered.as_str());
    out.append("\n---\n\n");
    out
}

/// The start of a dataset's details.
pub open spec fn detail_head_text(d: DetailView) -> Seq<char> {
    "### "@
        + d.name
        + "\n\n**Frequency:** "@
        + d.freq
        + "  |  **Domain:** "@
        + d.domain
        + "  |  **Series length:** "@
        + text::decimal(d.series_len as nat)
        + "  |  **Test rows:** "@
        + text::decimal(d.test_rows as nat)
        + "\n\n**Individual models:**\n\n"@
        + table::table_text(solo_headers_of(), d.solo)
        + "\n"@
}

fn detail_head(d: &Detail) -> (r: String)
    ensures
        r@ == detail_head_text(d@),
{
    let mut out: String = "### ".to_string();
    out.append(d.name.as_str());
    out.append("\n\n**Frequency:** ");
    out.append(d.freq.as_str());
    out.append("  |  **Domain:** ");
    out.append(d.domain.as_str());
    out.append("  |  **Series length:** ");
    text::push_decimal(&mut out, d.series_len as u64);
    out.append("  |  **Test rows:** ");
    text::push_decimal(&mut out, d.test_rows as u64);
    out.append("\n\n**Individual models:**\n\n");
    let headers: Vec<String> = solo_headers();
    let rendered: String = table::md_table(&headers, &d.solo);
    out.append(rendered.as_str());
    out.append("\n");
    out
}

/// The best combinations of a dataset's details.
pub open spec fn detail_best_text(d: DetailView) -> Seq<char> {
    "**Top 10 ensembles:**\n\n"@
        + table::table_text(ensemble_headers_of(), d.ensembles)
        + "\n"@
}

fn detail_best(d: &Detail) -> (r: String)
    ensures
        r@ == detail_best_text(d@),
{
    let mut out: String = "**Top 10 ensembles:**\n\n".to_string();
    let headers: Vec<String> = ensemble_headers();
    let rendered: String = table::md_table(&headers, &d.ensembles);
    out.append(rendered.as_str());
    out.append("\n");
    out
}

/// The section on how it was done.
pub open spec fn methodology_text(sweep_windows: usize) -> Seq<char> {
    "---\n\n## Methodology\n\n- All models run in-process via `zsfm-bench`, linking the `zsfm-rs` model crates directly through the shared `zsfm_core::Forecaster` load-once interface — no subprocess, no per-call GGUF reload. F32 GGUF weights (the canonical cache `zsfm <model> convert` produces).\n- Rolling windows evenly spaced over the held-out test split of each dataset.\n- **MAE** = mean absolute error averaged across all windows.\n- **RMSE** = root mean squared error averaged across windows.\n- **MASE** = MAE / mean-absolute-1-step-diff of the context window (scale-free).\n- Ensemble weights (`w`, `sfx`) derived from overall MAE on the same evaluation set (in-sample). `onl`/`ada`/`smo`/`sel`/`wh`/`uq` weights update window-by-window, causally.\n- **Horizon sweep:** context=512 fixed, horizons=[96, 192, 336, 720], "@
        + text::decimal(sweep_windows as nat)
        + " windows.\n- **Context sweep:** horizon=96 fixed, contexts=[96, 256, 512, 1024], "@
        + text::decimal(sweep_windows as nat)
        + " windows.\n- Datasets: ETDataset (ETTh/m), Monash (electricity, weather), Informer bundle (ILI, Exchange, Traffic), Jena Climate.\n"@
}

fn methodology(sweep_windows: usize) -> (r: String)
    ensures
        r@ == methodology_text(sweep_windows),
{
    let mut out: String = "---\n\n## Methodology\n\n- All models run in-process via `zsfm-bench`, linking the `zsfm-rs` model crates directly through the shared `zsfm_core::Forecaster` load-once interface — no subprocess, no per-call GGUF reload. F32 GGUF weights (the canonical cache `zsfm <model> convert` produces).\n- Rolling windows evenly spaced over the held-out test split of each dataset.\n- **MAE** = mean absolute error averaged across all windows.\n- **RMSE** = root mean squared error averaged across windows.\n- **MASE** = MAE / mean-absolute-1-step-diff of the context window (scale-free).\n- Ensemble weights (`w`, `sfx`) derived from overall MAE on the same evaluation set (in-sample). `onl`/`ada`/`smo`/`sel`/`wh`/`uq` weights update window-by-window, causally.\n- **Horizon sweep:** context=512 fixed, horizons=[96, 192, 336, 720], ".to_string();
    text::push_decimal(&mut out, sweep_windows as u64);
    out.append(" windows.\n- **Context sweep:** horizon=96 fixed, contexts=[96, 256, 512, 1024], ");
    text::push_decimal(&mut out, sweep_windows as u64);
    out.append(" windows.\n- Datasets: ETDataset (ETTh/m), Monash (electricity, weather), Informer bundle (ILI, Exchange, Traffic), Jena Climate.\n");
    out
}

/// The details of a dataset: its models, and its best combinations, if it has any.
pub open spec fn detail_text(d: DetailView) -> Seq<char> {
    if d.ensembles.len() == 0 {
        detail_head_text(d)
    } else {
        detail_head_text(d) + detail_best_text(d)
    }
}

/// The details of the first `n` datasets.
pub open spec fn details_text(details: Seq<Detail>, n: nat) -> Seq<char>
    decreases n,
{
    if n == 0 {
        Seq::empty()
    } else {
        details_text(details, (n - 1) as nat) + detail_text(details[n - 1]@)
    }
}

fn push_details(out: &mut String, details: &Vec<Detail>)
    ensures
        final(out)@ == old(out)@ + details_text(details@, details@.len()),
{
    let mut i: usize = 0;
    assert(out@ =~= old(out)@ + details_text(details@, 0));
    while i < details.len()
        invariant
            i <= details@.len(),
            out@ == old(out)@ + details_text(details@, i as nat),
        decreases details@.len() - i,
    {
        let ghost before = out@;
        let d: &Detail = &details[i];
        let head: String = detail_head(d);
        out.append(head.as_str());
        if d.ensembles.len() > 0 {
            let best: String = detail_best(d);
            out.append(best.as_str());
        }
        assert(d@.ensembles.len() == d.ensembles@.len());
        assert(out@ =~= before + detail_text(d@));
        i += 1;
        assert(out@ =~= old(out)@ + details_text(details@, i as nat));
    }
}

/// The report.
pub open spec fn report_text(
    date: Seq<char>,
    main_windows: usize,
    sweep_windows: usize,
    order: Seq<ModelId>,
    t: ReportTables,
) -> Seq<char> {
    preface_text(date, main_windows, sweep_windows, order) + mae_section_text(
        main_windows,
        order,
        table::row_texts(t.mae@),
    ) + mase_section_text(order, table::row_texts(t.mase@)) + latency_section_text(
        order,
        table::row_texts(t.latency@),
    ) + best_section_text(table::row_texts(t.best@)) + horizon_section_text(
        sweep_windows,
        table::row_texts(t.by_horizon@),
    ) + context_section_text(sweep_windows, table::row_texts(t.by_context@))
        + "## Per-Dataset Detail\n\n> context=512, horizon=96, "@ + text::decimal(main_windows as nat)
        + " windows.\n\n"@ + details_text(t.details@, t.details@.len()) + methodology_text(sweep_windows)
}

/// The report.
pub fn render(date: &str, main_windows: usize, sweep_windows: usize, order: &[ModelId], t: &ReportTables) -> (r: String)
    ensures
        r@ == report_text(date@, main_windows, sweep_windows, order@, *t),
{
    let mut out: String = preface(date, main_windows, sweep_windows, order);
    let mae: String = mae_section(main_windows, order, &t.mae);
    out.append(mae.as_str());
    let mase: String = mase_section(order, &t.mase);
    out.append(mase.as_str());
    let lat: String = latency_section(order, &t.latency);
    out.append(lat.as_str());
    let best: String = best_section(&t.best);
    out.append(best.as_str());
    let by_horizon: String = horizon_section(sweep_windows, &t.by_horizon);
    out.append(by_horizon.as_str());
    let by_context: String = context_section(sweep_windows, &t.by_context);
    out.append(by_context.as_str());
    out.append("## Per-Dataset Detail\n\n> context=512, horizon=96, ");
    text::push_decimal(&mut out, main_windows as u64);
    out.append(" windows.\n\n");
    push_details(&mut out, &t.details);
    let how: String = methodology(sweep_windows);
    out.append(how.as_str());
    out
}

/// The horizons and contexts that are swept.
pub proof fn law_swept_lengths()
    ensures
        horizon_list() == seq![96usize, 192usize, 336usize, 720usize],
        context_list() == seq![96usize, 256usize, 512usize, 1024usize],
{
}

/// What is run: every dataset once with 512 values of context and a horizon of 96, and in a sweep
/// once with each of the four lengths, the other length as it was.
pub proof fn law_what_is_run(windows: usize, d: int, p: int)
    requires
        0 <= d < data::dataset_list().len(),
        0 <= p < 4,
    ensures
        main_configs(windows).len() == data::dataset_list().len(),
        horizon_configs(windows).len() == data::dataset_list().len() * 4,
        context_configs(windows).len() == data::dataset_list().len() * 4,
        main_configs(windows)[d] == (Config {
            dataset: data::dataset_list()[d].name,
            context: 512,
            horizon: 96,
            windows,
        }),
        horizon_configs(windows)[d * 4 + p] == (Config {
            dataset: data::dataset_list()[d].name,
            context: 512,
            horizon: seq![96usize, 192usize, 336usize, 720usize][p],
            windows,
        }),
        context_configs(windows)[d * 4 + p] == (Config {
            dataset: data::dataset_list()[d].name,
            context: seq![96usize, 256usize, 512usize, 1024usize][p],
            horizon: 96,
            windows,
        }),
{
    assert((d * 4 + p) / 4 == d && (d * 4 + p) % 4 == p);
}

/// What is still to be run: a configuration whose result is not kept stays, and one whose result is
/// kept is left out.
pub proof fn law_what_is_left(c: Cache, configs: Seq<Config>, g: Config)
    ensures
        missing(c, Seq::empty()) == Seq::<Config>::empty(),
        c.entries().dom().contains(
            cache::key_text(g.dataset@, g.context as nat, g.horizon as nat, g.windows as nat),
        ) ==> missing(c, configs.push(g)) == missing(c, configs),
        !c.entries().dom().contains(
            cache::key_text(g.dataset@, g.context as nat, g.horizon as nat, g.windows as nat),
        ) ==> missing(c, configs.push(g)) == missing(c, configs).push(g),
{
    reveal(Seq::filter);
    assert(configs.push(g).drop_last() =~= configs);
    assert(Seq::<Config>::empty().filter(|g: Config| !c.entries().dom().contains(g.key())) =~= Seq::empty());
}

/// Each model's number is that of the first result under its name, and is no number where it has none.
pub proof fn law_numbers_of_models(run: CachedRun, order: Seq<ModelId>, i: int)
    requires
        0 <= i < order.len(),
    ensures
        solo_numbers(run, order, Measure::Mae).len() == order.len(),
        solo_numbers(run, order, Measure::Mase).len() == order.len(),
        match cache::solo_among(run.solo@, order[i].name(), 0) {
            Some(s) => solo_numbers(run, order, Measure::Mae)[i] == s.metrics.mae && solo_numbers(
                run,
                order,
                Measure::Mase,
            )[i] == s.metrics.mase,
            None => solo_numbers(run, order, Measure::Mae)[i] == 0x7ff8_0000_0000_0000 && solo_numbers(
                run,
                order,
                Measure::Mase,
            )[i] == 0x7ff8_0000_0000_0000,
        },
{
}

/// The least number is not greater than any other number, and of equal ones it is the first; the
/// least finite one likewise among the finite ones.
pub proof fn law_least_is_least(raw: Seq<u64>, i: int, j: int)
    requires
        0 <= j < raw.len(),
    ensures
        least_number(raw, i) ==> 0 <= i < raw.len() && raw[i] % 0x8000_0000_0000_0000 <= 0x7ff0_0000_0000_0000,
        least_number(raw, i) && raw[j] % 0x8000_0000_0000_0000 <= 0x7ff0_0000_0000_0000 ==> !float_bits::greater(
            raw[i],
            raw[j],
        ) && (raw[i] == raw[j] ==> i <= j),
        least_finite(raw, i) ==> 0 <= i < raw.len() && raw[i] % 0x8000_0000_0000_0000 < 0x7ff0_0000_0000_0000,
        least_finite(raw, i) && raw[j] % 0x8000_0000_0000_0000 < 0x7ff0_0000_0000_0000 ==> !float_bits::greater(
            raw[i],
            raw[j],
        ) && (raw[i] == raw[j] ==> i <= j),
{
    if (least_number(raw, i) || least_finite(raw, i)) && i != j {
        float_bits::law_total_order(raw[i], raw[j]);
        float_bits::law_greater_doubles(raw[i], raw[j]);
        float_bits::law_kinds_of_doubles(raw[j]);
        if least_number(raw, i) && !float_bits::nan(raw[j]) {
            assert(float_bits::sorts_before(raw, i, j));
        }
        if least_finite(raw, i) && float_bits::finite(raw[j]) {
            assert(float_bits::sorts_before(raw, i, j));
        }
    }
}

/// A sweep takes the finite scaled error of each dataset in turn, and passes over a dataset without
/// one.
pub proof fn law_sweeps_take_finite_errors(
    c: Cache,
    model: ModelId,
    context: usize,
    horizon: usize,
    windows: usize,
    n: nat,
)
    requires
        n < data::dataset_list().len(),
    ensures
        ({
            let key = cache::key_text(data::dataset_list()[n as int].name@, context as nat, horizon as nat, windows as nat);
            let s = cache::solo_among(c.entries()[key].solo@, model.name(), 0);
            let before = sweep_numbers(c, model, context, horizon, windows, n);
            let now = sweep_numbers(c, model, context, horizon, windows, n + 1);
            &&& c.entries().dom().contains(key) && s is Some && s->0.metrics.mase % 0x8000_0000_0000_0000
                < 0x7ff0_0000_0000_0000 ==> now == before.push(s->0.metrics.mase)
            &&& !c.entries().dom().contains(key) || s is None || s->0.metrics.mase % 0x8000_0000_0000_0000
                >= 0x7ff0_0000_0000_0000 ==> now == before
        }),
        sweep_numbers(c, model, context, horizon, windows, 0).len() == 0,
{
}

/// How numbers are shown: a dash for what is none, stars around the best, and an arrow for the
/// direction of a change.
pub proof fn law_cells_are_shown(bits: u64, number: Seq<char>, unit: Seq<char>)
    ensures
        bits % 0x8000_0000_0000_0000 > 0x7ff0_0000_0000_0000 ==> shown_text(bits, number) == "—"@,
        bits % 0x8000_0000_0000_0000 <= 0x7ff0_0000_0000_0000 ==> shown_text(bits, number) == number,
        bits % 0x8000_0000_0000_0000 >= 0x7ff0_0000_0000_0000 ==> latency_text(bits, number, unit) == "—"@,
        bits % 0x8000_0000_0000_0000 < 0x7ff0_0000_0000_0000 ==> latency_text(bits, number, unit) == number + unit,
        bold_text(number, true) == "**"@ + number + "**"@,
        bold_text(number, false) == number,
        0x8000_0000_0000_0000 < bits <= 0xfff0_0000_0000_0000 ==> change_text(bits, number) == "↓ "@ + number + "%"@,
        bits <= 0x8000_0000_0000_0000 || bits > 0xfff0_0000_0000_0000 ==> change_text(bits, number) == "↑ "@ + number
            + "%"@,
{
}

/// The headers of the tables.
pub proof fn law_headers_of_tables(order: Seq<ModelId>, i: int)
    ensures
        mae_headers_of(order).len() == order.len() + 4,
        mae_headers_of(order)[0] == "Dataset"@,
        mae_headers_of(order)[1] == "Freq"@,
        mae_headers_of(order)[2] == "Domain"@,
        0 <= i < order.len() ==> mae_headers_of(order)[3 + i] == order[i].label_text(),
        mae_headers_of(order).last() == "Winner"@,
        mase_headers_of(order).len() == order.len() + 2,
        mase_headers_of(order)[0] == "Dataset"@,
        0 <= i < order.len() ==> mase_headers_of(order)[1 + i] == order[i].label_text(),
        mase_headers_of(order).last() == "Winner"@,
        latency_headers_of(order).len() == order.len() + 1,
        latency_headers_of(order)[0] == "Dataset"@,
        0 <= i < order.len() ==> latency_headers_of(order)[1 + i] == order[i].label_text(),
        best_headers_of() == seq![
            "Dataset"@,
            "Best Solo"@,
            "Solo MAE"@,
            "Best Ensemble"@,
            "Ensemble MAE"@,
            "Δ MAE"@,
            "Change"@,
        ],
        horizon_headers_of() == seq!["Model"@, "h=96"@, "h=192"@, "h=336"@, "h=720"@],
        context_headers_of() == seq!["Model"@, "ctx=96"@, "ctx=256"@, "ctx=512"@, "ctx=1024"@],
        solo_headers_of() == seq!["Model"@, "MAE"@, "RMSE"@, "MASE"@, "Latency"@],
        ensemble_headers_of() == seq!["Ensemble"@, "MAE"@, "RMSE"@, "MASE"@, "Δ vs best solo"@],
{
}

/// The table of models has a row for each, its label and its architecture; that of strategies a row
/// for each, its sign and its description.
pub proof fn law_tables_of_what_is_run(order: Seq<ModelId>, i: int, k: int)
    requires
        0 <= i < order.len(),
        0 <= k < 12,
    ensures
        model_rows(order).len() == order.len(),
        model_rows(order)[i] == seq![order[i].label_text(), order[i].architecture()],
        model_table_text(order) == table::table_text(seq!["Model"@, "Architecture"@], model_rows(order)),
        strategy_rows().len() == 12,
        strategy_rows()[k] == seq![
            "`("@ + ensemble::all_methods()[k].short() + ")`"@,
            ensemble::all_methods()[k].description(),
        ],
        strategy_table_text() == table::table_text(seq!["Symbol"@, "Strategy"@], strategy_rows()),
{
}

/// Each dataset is told of in turn; its ensembles are told of where it has some.
pub proof fn law_details_follow(details: Seq<Detail>, n: nat)
    requires
        n < details.len(),
    ensures
        details_text(details, 0).len() == 0,
        details[n as int]@.ensembles.len() == 0 ==> details_text(details, n + 1) == details_text(details, n)
            + detail_head_text(details[n as int]@),
        details[n as int]@.ensembles.len() > 0 ==> details_text(details, n + 1) == details_text(details, n) + (
        detail_head_text(details[n as int]@) + detail_best_text(details[n as int]@)),
{
}

/// How the report is put together: its parts in order, each with its headline and its table.
pub proof fn law_report_is_put_together(date: Seq<char>, main_windows: usize, sweep_windows: usize, order: Seq<ModelId>, rows: Seq<Seq<Seq<char>>>, d: DetailView, t: ReportTables)
    ensures
        preface_text(date, main_windows, sweep_windows, order) == "# Time Series Forecasting Benchmark\n\n**Date:** "@
        + date
        + "  \n**Main evaluation:** context=512, horizon=96, "@
        + text::decimal(main_windows as nat)
        + " rolling windows  \n**Sweep evaluations:** "@
        + text::decimal(sweep_windows as nat)
        + " rolling windows  \n**Metric:** MAE (lower is better); MASE for cross-dataset comparison (scale-free)\n\n**Models:**\n\n"@
        + model_table_text(order)
        + "\n**Ensemble strategies (all non-trivial subsets, size ≥ 2):**\n\n"@
        + strategy_table_text()
        + "\n---\n\n## Table of Contents\n\n1. [Individual Models — MAE](#individual-models--mae)\n2. [Individual Models — MASE](#individual-models--mase-scale-free)\n3. [Inference Latency](#inference-latency)\n4. [Best Ensemble vs Best Solo](#best-ensemble-vs-best-solo)\n5. [Horizon Scaling](#horizon-scaling)\n6. [Context Length Scaling](#context-length-scaling)\n7. [Per-Dataset Detail](#per-dataset-detail)\n8. [Methodology](#methodology)\n\n---\n\n"@,
        mae_section_text(main_windows, order, rows) == "## Individual Models — MAE\n\n> context=512, horizon=96, "@
        + text::decimal(main_windows as nat)
        + " windows. **Bold** = best on that dataset.\n\n"@
        + table::table_text(mae_headers_of(order), rows)
        + "\n"@,
        mase_section_text(order, rows) == "## Individual Models — MASE (scale-free)\n\n> MASE < 1 means the model beats a naïve 1-step random walk. **Bold** = best.\n\n"@
        + table::table_text(mase_headers_of(order), rows)
        + "\n"@,
        latency_section_text(order, rows) == "## Inference Latency\n\n> Milliseconds per window (context=512, horizon=96).\n\n"@
        + table::table_text(latency_headers_of(order), rows)
        + "\n"@,
        best_section_text(rows) == "## Best Ensemble vs Best Solo\n\n> Δ MAE = ensemble MAE − best solo MAE. Negative = ensemble wins.\n\n"@
        + table::table_text(best_headers_of(), rows)
        + "\n---\n\n"@,
        horizon_section_text(sweep_windows, rows) == "## Horizon Scaling\n\n> context=512 fixed, horizons=[96, 192, 336, 720], "@
        + text::decimal(sweep_windows as nat)
        + " windows. **Bold** = best horizon for that dataset/model.\n\n### Average MASE across all datasets by horizon\n\n"@
        + table::table_text(horizon_headers_of(), rows)
        + "\n---\n\n"@,
        context_section_text(sweep_windows, rows) == "## Context Length Scaling\n\n> horizon=96 fixed, contexts=[96, 256, 512, 1024], "@
        + text::decimal(sweep_windows as nat)
        + " windows. **Bold** = best context for that dataset/model.\n\n### Average MASE across all datasets by context length\n\n"@
        + table::table_text(context_headers_of(), rows)
        + "\n---\n\n"@,
        detail_head_text(d) == "### "@
        + d.name
        + "\n\n**Frequency:** "@
        + d.freq
        + "  |  **Domain:** "@
        + d.domain
        + "  |  **Series length:** "@
        + text::decimal(d.series_len as nat)
        + "  |  **Test rows:** "@
        + text::decimal(d.test_rows as nat)
        + "\n\n**Individual models:**\n\n"@
        + table::table_text(solo_headers_of(), d.solo)
        + "\n"@,
        detail_best_text(d) == "**Top 10 ensembles:**\n\n"@
        + table::table_text(ensemble_headers_of(), d.ensembles)
        + "\n"@,
        methodology_text(sweep_windows) == "---\n\n## Methodology\n\n- All models run in-process via `zsfm-bench`, linking the `zsfm-rs` model crates directly through the shared `zsfm_core::Forecaster` load-once interface — no subprocess, no per-call GGUF reload. F32 GGUF weights (the canonical cache `zsfm <model> convert` produces).\n- Rolling windows evenly spaced over the held-out test split of each dataset.\n- **MAE** = mean absolute error averaged across all windows.\n- **RMSE** = root mean squared error averaged across windows.\n- **MASE** = MAE / mean-absolute-1-step-diff of the context window (scale-free).\n- Ensemble weights (`w`, `sfx`) derived from overall MAE on the same evaluation set (in-sample). `onl`/`ada`/`smo`/`sel`/`wh`/`uq` weights update window-by-window, causally.\n- **Horizon sweep:** context=512 fixed, horizons=[96, 192, 336, 720], "@
        + text::decimal(sweep_windows as nat)
        + " windows.\n- **Context sweep:** horizon=96 fixed, contexts=[96, 256, 512, 1024], "@
        + text::decimal(sweep_windows as nat)
        + " windows.\n- Datasets: ETDataset (ETTh/m), Monash (electricity, weather), Informer bundle (ILI, Exchange, Traffic), Jena Climate.\n"@,
        report_text(date, main_windows, sweep_windows, order, t) == preface_text(date, main_windows, sweep_windows, order) + mae_section_text(
        main_windows,
        order,
        table::row_texts(t.mae@),
    ) + mase_section_text(order, table::row_texts(t.mase@)) + latency_section_text(
        order,
        table::row_texts(t.latency@),
    ) + best_section_text(table::row_texts(t.best@)) + horizon_section_text(
        sweep_windows,
        table::row_texts(t.by_horizon@),
    ) + context_section_text(sweep_windows, table::row_texts(t.by_context@))
        + "## Per-Dataset Detail\n\n> context=512, horizon=96, "@ + text::decimal(main_windows as nat)
        + " windows.\n\n"@ + details_text(t.details@, t.details@.len()) + methodology_text(sweep_windows),
{
}

} // verus!
