//! Which models are run, where their files lie, how much context each is given, and what is taken of
//! its forecast.

use vstd::prelude::*;

use crate::bench::data;
use crate::bench::model_id;
use crate::bench::model_id::ModelId;
use crate::text;

verus! {

/// The longest context that Toto is given.
pub const TOTO_MAX_CTX: usize = 4096;

/// A name that is no model's.
#[derive(Debug)]
pub struct UnknownModel {
    pub name: String,
}

/// The model that a name stands for, with blanks around it.
pub open spec fn named_model(name: Seq<char>, m: ModelId) -> bool {
    m.name() == data::trimmed(name)
}

/// Whether a name is some model's.
pub open spec fn names_model(name: Seq<char>) -> bool {
    exists|m: ModelId| named_model(name, m)
}

/// The models of names, in their order, or the first name that is no model's.
pub open spec fn resolved(names: Seq<String>, r: Result<Vec<ModelId>, UnknownModel>) -> bool {
    match r {
        Ok(ids) => ids@.len() == names.len() && forall|i: int|
            0 <= i < names.len() ==> named_model((#[trigger] names[i])@, ids@[i]),
        Err(e) => exists|i: int| {
            &&& 0 <= i < names.len()
            &&& (#[trigger] names[i])@ == e.name@
            &&& !names_model(names[i]@)
            &&& forall|j: int| 0 <= j < i ==> names_model((#[trigger] names[j])@)
        },
    }
}

fn resolve_names(names: &Vec<String>) -> (r: Result<Vec<ModelId>, UnknownModel>)
    ensures
        resolved(names@, r),
{
    let mut ids: Vec<ModelId> = Vec::new();
    let mut i: usize = 0;
    while i < names.len()
        invariant
            i <= names@.len(),
            ids@.len() == i,
            forall|q: int| 0 <= q < i ==> named_model((#[trigger] names@[q])@, ids@[q]),
        decreases names@.len() - i,
    {
        match ModelId::parse(data::trim(names[i].as_str())) {
            Some(m) => {
                ids.push(m);
            },
            None => {
                assert forall|j: int| 0 <= j < i implies names_model((#[trigger] names@[j])@) by {
                    assert(named_model(names@[j]@, ids@[j]));
                }
                assert(!names_model(names@[i as int]@));
                return Err(UnknownModel { name: names[i].as_str().to_string() });
            },
        }
        i += 1;
    }
    Ok(ids)
}

/// The models that are asked for: all of them where none is named, else those named, in that order.
/// A name that is no model's is refused, and of several the first.
pub fn resolve_models(names: &Option<Vec<String>>) -> (r: Result<Vec<ModelId>, UnknownModel>)
    ensures
        match names {
            None => r matches Ok(ids) && ids@ == model_id::all_models(),
            Some(names) => resolved(names@, r),
        },
{
    match names {
        None => Ok(ModelId::all()),
        Some(names) => resolve_names(names),
    }
}

/// The models that were loaded, in the order in which they were asked for.
pub fn loaded_order(ids: &Vec<ModelId>, loaded: &Vec<ModelId>) -> (r: Vec<ModelId>)
    ensures
        r@ == ids@.filter(|m: ModelId| loaded@.contains(m)),
{
    let mut out: Vec<ModelId> = Vec::new();
    let mut i: usize = 0;
    let ghost keeps = |m: ModelId| loaded@.contains(m);
    proof {
        reveal(Seq::filter);
        assert(ids@.take(0) =~= Seq::empty());
        assert(ids@.take(0).filter(keeps) =~= Seq::empty());
    }
    while i < ids.len()
        invariant
            i <= ids@.len(),
            keeps == |m: ModelId| loaded@.contains(m),
            out@ == ids@.take(i as int).filter(keeps),
        decreases ids@.len() - i,
    {
        let id: ModelId = ids[i];
        let ghost next = ids@.take(i + 1);
        proof {
            reveal(Seq::filter);
            assert(next.drop_last() =~= ids@.take(i as int));
            assert(next.last() == id);
        }
        let mut j: usize = 0;
        while j < loaded.len() && loaded[j] != id
            invariant
                j <= loaded@.len(),
                forall|q: int| 0 <= q < j ==> loaded@[q] != id,
            decreases loaded@.len() - j,
        {
            j += 1;
        }
        if j < loaded.len() {
            assert(loaded@[j as int] == id);
            out.push(id);
        }
        i += 1;
    }
    assert(ids@.take(i as int) =~= ids@);
    out
}

/// The directory of a model's files: its repository with two underscores for the slash.
pub fn repo_dir(id: ModelId) -> (r: String)
    ensures
        r@ == text::replaced(id.repository(), '/', "__"@),
{
    text::replace_char(id.repo_id(), '/', "__")
}

/// What is missing of a model, in words.
pub fn missing_weights(id: ModelId, path: &str) -> (r: String)
    ensures
        r@ == "no cached F32 GGUF for "@ + id.name() + " at "@ + path@ + " — run `zsfm "@ + id.name()
            + " convert` first (any --dtype; the canonical F32 copy is cached automatically)"@,
{
    let mut s: String = text::join2("no cached F32 GGUF for ", id.as_str());
    s.append(" at ");
    s.append(path);
    s.append(" — run `zsfm ");
    s.append(id.as_str());
    s.append(" convert` first (any --dtype; the canonical F32 copy is cached automatically)");
    s
}

/// What is missing of a model, in words.
pub fn missing_config(id: ModelId, path: &str) -> (r: String)
    ensures
        r@ == "missing "@ + path@ + " — should have been cached alongside the GGUF by `zsfm "@ + id.name()
            + " convert`"@,
{
    let mut s: String = text::join2("missing ", path);
    s.append(" — should have been cached alongside the GGUF by `zsfm ");
    s.append(id.as_str());
    s.append(" convert`");
    s
}

/// A context that is too short for a model.
#[derive(Debug, Clone, Copy, PartialEq, Eq, Structural)]
pub enum ContextTooShort {
    Toto { patch_size: usize },
    Chronos { needed: usize, got: usize },
}

impl ContextTooShort {
    /// The error in words.
    pub open spec fn text(self) -> Seq<char> {
        match self {
            ContextTooShort::Toto { patch_size } => "context too short for toto (patch_size="@ + text::decimal(
                patch_size as nat,
            ) + ")"@,
            ContextTooShort::Chronos { needed, got } => "context too short for chronos (need >= "@ + text::decimal(
                needed as nat,
            ) + ", got "@ + text::decimal(got as nat) + ")"@,
        }
    }

    /// The error in words.
    pub fn message(self) -> (r: String)
        ensures
            r@ == self.text(),
    {
        match self {
            ContextTooShort::Toto { patch_size } => {
                let mut s: String = "context too short for toto (patch_size=".to_string();
                text::push_decimal(&mut s, patch_size as u64);
                s.append(")");
                s
            },
            ContextTooShort::Chronos { needed, got } => {
                let mut s: String = "context too short for chronos (need >= ".to_string();
                text::push_decimal(&mut s, needed as u64);
                s.append(", got ");
                text::push_decimal(&mut s, got as u64);
                s.append(")");
                s
            },
        }
    }
}

/// The greatest multiple of a step that is no longer than the context and the limit.
pub open spec fn whole_steps(len: int, limit: int, step: int) -> int {
    ((if len < limit {
        len
    } else {
        limit
    }) / step) * step
}

/// The multiple is one, and the next one would be too long.
pub proof fn law_whole_steps(len: int, limit: int, step: int)
    requires
        0 <= len,
        0 <= limit,
        0 < step,
    ensures
        whole_steps(len, limit, step) % step == 0,
        0 <= whole_steps(len, limit, step) <= len,
        whole_steps(len, limit, step) <= limit,
        whole_steps(len, limit, step) + step > len || whole_steps(len, limit, step) + step > limit,
{
    let m = if len < limit {
        len
    } else {
        limit
    };
    vstd::arithmetic::div_mod::lemma_fundamental_div_mod(m, step);
    vstd::arithmetic::mul::lemma_mul_is_commutative(step, m / step);
    vstd::arithmetic::div_mod::lemma_mod_multiples_basic(m / step, step);
    vstd::arithmetic::div_mod::lemma_div_pos_is_pos(m, step);
    vstd::arithmetic::mul::lemma_mul_nonnegative(m / step, step);
}

fn steps(len: usize, limit: usize, step: usize) -> (r: usize)
    requires
        0 < step,
    ensures
        r == whole_steps(len as int, limit as int, step as int),
        r <= len,
{
    proof {
        law_whole_steps(len as int, limit as int, step as int);
    }
    let m: usize = if len < limit { len } else { limit };
    (m / step) * step
}

/// Where the context that Toto is given starts: its last values that make up whole patches.
pub fn toto_context(len: usize, patch_size: usize) -> (r: Result<usize, ContextTooShort>)
    requires
        0 < patch_size,
    ensures
        ({
            let n = whole_steps(len as int, TOTO_MAX_CTX as int, patch_size as int);
            r == if n > 0 {
                Ok((len - n) as usize)
            } else {
                Err(ContextTooShort::Toto { patch_size })
            }
        }),
{
    let n: usize = steps(len, TOTO_MAX_CTX, patch_size);
    if n > 0 {
        Ok(len - n)
    } else {
        Err(ContextTooShort::Toto { patch_size })
    }
}

/// Where the context that Chronos is given starts: its last values that make up whole strides, of
/// which there must be a patch.
pub fn chronos_context(len: usize, patch_size: usize, patch_stride: usize, max_ctx: usize) -> (r: Result<
    usize,
    ContextTooShort,
>)
    requires
        0 < patch_stride,
    ensures
        ({
            let n = whole_steps(len as int, max_ctx as int, patch_stride as int);
            r == if n >= patch_size {
                Ok((len - n) as usize)
            } else {
                Err(ContextTooShort::Chronos { needed: patch_size, got: n as usize })
            }
        }),
{
    let n: usize = steps(len, max_ctx, patch_stride);
    if n >= patch_size {
        Ok(len - n)
    } else {
        Err(ContextTooShort::Chronos { needed: patch_size, got: n })
    }
}

/// What a model gives: the rows of its forecast, and its mean where it gives one apart.
#[derive(Debug)]
pub struct Forecast {
    pub rows: Vec<Vec<u32>>,
    pub mean: Vec<u32>,
}

impl Forecast {
    /// The rows of the forecast.
    pub open spec fn row_list(&self) -> Seq<Seq<u32>> {
        self.rows@.map_values(|row: Vec<u32>| row@)
    }
}

/// The places of one tenth, one half and nine tenths among the levels of a model, as far as they are
/// there, and the number of the levels.
#[derive(Debug, Clone, Copy)]
pub struct LevelPlaces {
    pub low: Option<usize>,
    pub half: Option<usize>,
    pub high: Option<usize>,
    pub count: usize,
}

impl LevelPlaces {
    /// The place of the median: that of one half, or the middle where one half is no level.
    pub open spec fn median(self) -> int {
        match self.half {
            Some(i) => i as int,
            None => self.count as int / 2,
        }
    }

    /// The places of one tenth and nine tenths, if both are there.
    pub open spec fn tenths(self) -> Option<(int, int)> {
        match (self.low, self.high) {
            (Some(low), Some(high)) => Some((low as int, high as int)),
            _ => None,
        }
    }
}

/// The places of the rows that bound a forecast, the lower one first.
pub open spec fn bound_places(id: ModelId, n_rows: nat, levels: LevelPlaces) -> Option<(int, int)> {
    match id {
        ModelId::Toto => Some((0, 8)),
        ModelId::Chronos | ModelId::FlowState => levels.tenths(),
        ModelId::TimesFM => if n_rows >= 10 {
            Some((1, 9))
        } else {
            None
        },
        ModelId::Tirex => if n_rows >= 9 {
            Some((0, 8))
        } else {
            None
        },
        _ => None,
    }
}

/// The point forecast.
pub open spec fn point_of(id: ModelId, rows: Seq<Seq<u32>>, mean: Seq<u32>, levels: LevelPlaces, horizon: nat) -> Seq<
    u32,
> {
    match id {
        ModelId::Toto => rows[4],
        ModelId::Chronos | ModelId::FlowState => rows[levels.median()],
        ModelId::TimesFM => if rows.len() > 0 {
            rows[0]
        } else {
            Seq::empty()
        },
        ModelId::Tirex => mean,
        ModelId::Sundial | ModelId::Ttm => if horizon < rows[0].len() {
            rows[0].take(horizon as int)
        } else {
            rows[0]
        },
        _ => rows[0],
    }
}

/// Whether the forecast has the rows that are read.
pub open spec fn has_rows(id: ModelId, n_rows: nat, levels: LevelPlaces) -> bool {
    match id {
        ModelId::Toto => n_rows >= 9,
        ModelId::Chronos | ModelId::FlowState => levels.median() < n_rows && (levels.tenths() matches Some((low, high))
            ==> low < n_rows && high < n_rows),
        ModelId::TimesFM | ModelId::Tirex => true,
        _ => n_rows >= 1,
    }
}

/// The point forecast of a model, and the rows that bound it, the lower one first.
#[derive(Debug)]
pub struct Taken {
    pub point: Vec<u32>,
    pub bounds: Option<(Vec<u32>, Vec<u32>)>,
}

/// Takes the first values of a row, and all where there are no more.
fn cut(row: &Vec<u32>, n: usize) -> (r: Vec<u32>)
    ensures
        r@ == (if n < row@.len() {
            row@.take(n as int)
        } else {
            row@
        }),
{
    let mut out: Vec<u32> = Vec::new();
    let mut i: usize = 0;
    while i < n && i < row.len()
        invariant
            i <= n,
            i <= row@.len(),
            out@ == row@.take(i as int),
        decreases row@.len() - i,
    {
        out.push(row[i]);
        i += 1;
        assert(out@ =~= row@.take(i as int));
    }
    assert(row@.take(row@.len() as int) =~= row@);
    out
}

fn copied(row: &Vec<u32>) -> (r: Vec<u32>)
    ensures
        r@ == row@,
{
    cut(row, row.len())
}

fn bounding(out: &Forecast, low: usize, high: usize) -> (r: Option<(Vec<u32>, Vec<u32>)>)
    requires
        low < out.rows@.len(),
        high < out.rows@.len(),
    ensures
        r matches Some((l, h)) && l@ == out.row_list()[low as int] && h@ == out.row_list()[high as int],
{
    Some((copied(&out.rows[low]), copied(&out.rows[high])))
}

/// Takes of a model's forecast what the benchmark reads: the point forecast, which is the median of
/// the models that give levels, the mean of TiRex, and no longer than the horizon where a model
/// forecasts further; and the rows of one tenth and nine tenths, where the model gives them.
pub fn take_forecast(id: ModelId, out: &Forecast, levels: LevelPlaces, horizon: usize) -> (r: Taken)
    requires
        has_rows(id, out.rows@.len(), levels),
    ensures
        r.point@ == point_of(id, out.row_list(), out.mean@, levels, horizon as nat),
        match r.bounds {
            Some((low, high)) => bound_places(id, out.rows@.len(), levels) matches Some((l, h)) && low@
                == out.row_list()[l] && high@ == out.row_list()[h],
            None => bound_places(id, out.rows@.len(), levels) is None,
        },
{
    let n: usize = out.rows.len();
    match id {
        ModelId::Toto => Taken { point: copied(&out.rows[4]), bounds: bounding(out, 0, 8) },
        ModelId::Chronos | ModelId::FlowState => {
            let median: usize = match levels.half {
                Some(i) => i,
                None => levels.count / 2,
            };
            let bounds: Option<(Vec<u32>, Vec<u32>)> = match (levels.low, levels.high) {
                (Some(low), Some(high)) => bounding(out, low, high),
                _ => None,
            };
            Taken { point: copied(&out.rows[median]), bounds }
        },
        ModelId::TimesFM => {
            let point: Vec<u32> = if n > 0 { copied(&out.rows[0]) } else { Vec::new() };
            Taken { point, bounds: if n >= 10 { bounding(out, 1, 9) } else { None } }
        },
        ModelId::Tirex => {
            Taken { point: copied(&out.mean), bounds: if n >= 9 { bounding(out, 0, 8) } else { None } }
        },
        ModelId::Sundial | ModelId::Ttm => Taken { point: cut(&out.rows[0], horizon), bounds: None },
        _ => Taken { point: copied(&out.rows[0]), bounds: None },
    }
}

/// Which rows of a forecast bound it: of nine deciles the first and the last, of ten rows of which
/// the first is the mean the second and the last, and where the levels are named those of a tenth and
/// nine tenths. The other models have no bounds.
pub proof fn law_bounds_of_models(id: ModelId, n_rows: nat, levels: LevelPlaces)
    ensures
        bound_places(ModelId::Toto, n_rows, levels) == Some((0int, 8int)),
        n_rows >= 10 ==> bound_places(ModelId::TimesFM, n_rows, levels) == Some((1int, 9int)),
        n_rows < 10 ==> bound_places(ModelId::TimesFM, n_rows, levels) is None,
        n_rows >= 9 ==> bound_places(ModelId::Tirex, n_rows, levels) == Some((0int, 8int)),
        n_rows < 9 ==> bound_places(ModelId::Tirex, n_rows, levels) is None,
        id is Chronos || id is FlowState ==> (levels.low is Some && levels.high is Some ==> bound_places(
            id,
            n_rows,
            levels,
        ) == Some((levels.low->0 as int, levels.high->0 as int))),
        id is Chronos || id is FlowState ==> (levels.low is None || levels.high is None ==> bound_places(
            id,
            n_rows,
            levels,
        ) is None),
        id is Sundial || id is Ttm || id is LagLlama || id is Moment || id is Moirai || id is Moirai2 ==> bound_places(
            id,
            n_rows,
            levels,
        ) is None,
{
}

/// Which row is the point forecast: the middle one of nine deciles, the median where the levels are
/// named, the mean where the model gives one, and else the first. Only two models are cut to the
/// horizon.
pub proof fn law_points_of_models(
    id: ModelId,
    rows: Seq<Seq<u32>>,
    mean: Seq<u32>,
    levels: LevelPlaces,
    horizon: nat,
    t: int,
)
    ensures
        point_of(ModelId::Toto, rows, mean, levels, horizon) == rows[4],
        id is Chronos || id is FlowState ==> (levels.half is Some ==> point_of(id, rows, mean, levels, horizon)
            == rows[levels.half->0 as int]),
        id is Chronos || id is FlowState ==> (levels.half is None ==> point_of(id, rows, mean, levels, horizon)
            == rows[levels.count as int / 2]),
        rows.len() > 0 ==> point_of(ModelId::TimesFM, rows, mean, levels, horizon) == rows[0],
        rows.len() == 0 ==> point_of(ModelId::TimesFM, rows, mean, levels, horizon).len() == 0,
        point_of(ModelId::Tirex, rows, mean, levels, horizon) == mean,
        id is LagLlama || id is Moment || id is Moirai || id is Moirai2 ==> point_of(id, rows, mean, levels, horizon)
            == rows[0],
        id is Sundial || id is Ttm ==> ({
            let p = point_of(id, rows, mean, levels, horizon);
            &&& p.len() <= horizon
            &&& p.len() == horizon || p.len() == rows[0].len()
            &&& 0 <= t < p.len() ==> p[t] == rows[0][t]
        }),
{
}

/// A name stands for the model that is called so, with or without space around it, and no name stands
/// for two.
pub proof fn law_names_stand_for_models(name: Seq<char>, m: ModelId, other: ModelId)
    ensures
        named_model(name, m) <==> data::trimmed(name) == m.name(),
        named_model(name, m) && named_model(name, other) ==> m == other,
        names_model(name) <==> exists|k: ModelId| #[trigger] k.name() == data::trimmed(name),
{
    if named_model(name, m) && named_model(name, other) {
        model_id::law_names_differ(m, other);
    }
    if names_model(name) {
        let k = choose|k: ModelId| named_model(name, k);
        assert(k.name() == data::trimmed(name));
    }
    if exists|k: ModelId| #[trigger] k.name() == data::trimmed(name) {
        let k = choose|k: ModelId| #[trigger] k.name() == data::trimmed(name);
        assert(named_model(name, k));
    }
}

/// How a context that is too short is reported.
pub proof fn law_short_contexts_spelled(patch_size: usize, needed: usize, got: usize)
    ensures
        (ContextTooShort::Toto { patch_size }).text() == "context too short for toto (patch_size="@ + text::decimal(
            patch_size as nat,
        ) + ")"@,
        (ContextTooShort::Chronos { needed, got }).text() == "context too short for chronos (need >= "@ + text::decimal(
            needed as nat,
        ) + ", got "@ + text::decimal(got as nat) + ")"@,
{
}

} // verus!
