//! Toto's inference: its configuration, how a series is cut into patches, and what is masked.
//!
//! Values of series are held as the bits of singles, settings with a fraction as those of doubles.

use vstd::prelude::*;

use crate::json;
use crate::json::{JsonError, Member, MemberView};
use crate::layout;
use crate::models::weights;

verus! {

/// The number of quantiles that are forecast.
pub const NUM_QUANTILES: usize = 9;

/// The bits of the single 1.
pub const ONE: u32 = 0x3f80_0000;

/// The bits of the single that is minus infinity.
pub const MINUS_INFINITY: u32 = 0xff80_0000;

/// How the model is run.
#[derive(Clone, Copy, Debug, PartialEq, Eq, Structural)]
pub struct InferConfig {
    pub d_model: usize,
    pub num_layers: usize,
    pub num_heads: usize,
    pub num_groups: usize,
    pub qk_dim: usize,
    pub v_dim: usize,
    pub patch_size: usize,
    pub norm_eps: u64,
    pub layer_group_size: usize,
    pub num_variate_layers_per_group: usize,
    pub variate_layer_first: bool,
    pub use_xpos: bool,
    pub residual_mult: u64,
    pub residual_attn_ratio: u64,
    pub compute_f64: bool,
}

/// The published configuration.
pub open spec fn published() -> InferConfig {
    InferConfig {
        d_model: 2048,
        num_layers: 48,
        num_heads: 32,
        num_groups: 32,
        qk_dim: 64,
        v_dim: 64,
        patch_size: 32,
        norm_eps: 0x3f40_624d_d2f1_a9fc,
        layer_group_size: 48,
        num_variate_layers_per_group: 1,
        variate_layer_first: false,
        use_xpos: true,
        residual_mult: 0x3fe8_0000_0000_0000,
        residual_attn_ratio: 0x4014_8b7c_1138_a4ab,
        compute_f64: false,
    }
}

impl Default for InferConfig {
    /// The published configuration.
    fn default() -> (r: Self)
        ensures
            r == published(),
    {
        InferConfig {
            d_model: 2048,
            num_layers: 48,
            num_heads: 32,
            num_groups: 32,
            qk_dim: 64,
            v_dim: 64,
            patch_size: 32,
            norm_eps: 0x3f40_624d_d2f1_a9fc,
            layer_group_size: 48,
            num_variate_layers_per_group: 1,
            variate_layer_first: false,
            use_xpos: true,
            residual_mult: 0x3fe8_0000_0000_0000,
            residual_attn_ratio: 0x4014_8b7c_1138_a4ab,
            compute_f64: false,
        }
    }
}

/// The members of a configuration that override the published one.
#[derive(Debug)]
pub struct ConfigMembers {
    pub d_model: Member,
    pub num_layers: Member,
    pub num_heads: Member,
    pub num_groups: Member,
    pub qk_dim: Member,
    pub v_dim: Member,
    pub patch_size: Member,
    pub norm_eps: Member,
    pub layer_group_size: Member,
    pub num_variate_layers_per_group: Member,
    pub variate_layer_first: Member,
    pub use_xpos: Member,
    pub residual_mult: Member,
    pub residual_attn_ratio: Member,
}

/// A whole number of a member, cut to the machine's width, or the one given.
pub open spec fn number_or(m: MemberView, default: usize) -> usize {
    match m.unsigned {
        Some(v) => v as usize,
        None => default,
    }
}

/// The bits of a double of a member, or the ones given.
pub open spec fn double_or(m: MemberView, default: u64) -> u64 {
    match m.double {
        Some(v) => v,
        None => default,
    }
}

/// The truth value of a member, or the one given.
pub open spec fn flag_or(m: MemberView, default: bool) -> bool {
    match m.boolean {
        Some(v) => v,
        None => default,
    }
}

fn number(m: &Member, default: usize) -> (r: usize)
    ensures
        r == number_or(m@, default),
{
    match m.unsigned {
        Some(v) => v as usize,
        None => default,
    }
}

fn double(m: &Member, default: u64) -> (r: u64)
    ensures
        r == double_or(m@, default),
{
    match m.double {
        Some(v) => v,
        None => default,
    }
}

fn flag(m: &Member, default: bool) -> (r: bool)
    ensures
        r == flag_or(m@, default),
{
    match m.boolean {
        Some(v) => v,
        None => default,
    }
}

impl InferConfig {
    /// Whether a layer attends over variates: in every group of layers the first ones do, or the last
    /// ones.
    pub open spec fn variate_layer(self, idx: int) -> bool {
        let at = idx % self.layer_group_size as int;
        if self.variate_layer_first {
            at < self.num_variate_layers_per_group
        } else {
            at >= self.layer_group_size - self.num_variate_layers_per_group
        }
    }

    /// Whether a layer attends over variates.
    pub fn is_variate_layer(&self, idx: usize) -> (r: bool)
        requires
            self.layer_group_size > 0,
            self.variate_layer_first || self.num_variate_layers_per_group <= self.layer_group_size,
        ensures
            r == self.variate_layer(idx as int),
    {
        let at: usize = idx % self.layer_group_size;
        if self.variate_layer_first {
            at < self.num_variate_layers_per_group
        } else {
            at >= self.layer_group_size - self.num_variate_layers_per_group
        }
    }

    /// The width of all queries.
    pub fn q_size(&self) -> (r: usize)
        requires
            self.qk_dim * self.num_heads <= usize::MAX,
        ensures
            r == self.qk_dim * self.num_heads,
    {
        self.qk_dim * self.num_heads
    }

    /// The width of all keys.
    pub fn k_size(&self) -> (r: usize)
        requires
            self.qk_dim * self.num_groups <= usize::MAX,
        ensures
            r == self.qk_dim * self.num_groups,
    {
        self.qk_dim * self.num_groups
    }

    /// The width of all values.
    pub fn v_size(&self) -> (r: usize)
        requires
            self.v_dim * self.num_groups <= usize::MAX,
        ensures
            r == self.v_dim * self.num_groups,
    {
        self.v_dim * self.num_groups
    }

    /// The width of the model.
    pub fn with_d_model(self, v: usize) -> (r: Self)
        ensures
            r == (InferConfig { d_model: v, ..self }),
    {
        let mut r = self;
        r.d_model = v;
        r
    }

    /// The number of layers.
    pub fn with_num_layers(self, v: usize) -> (r: Self)
        ensures
            r == (InferConfig { num_layers: v, ..self }),
    {
        let mut r = self;
        r.num_layers = v;
        r
    }

    /// The number of heads.
    pub fn with_num_heads(self, v: usize) -> (r: Self)
        ensures
            r == (InferConfig { num_heads: v, ..self }),
    {
        let mut r = self;
        r.num_heads = v;
        r
    }

    /// The number of key groups.
    pub fn with_num_groups(self, v: usize) -> (r: Self)
        ensures
            r == (InferConfig { num_groups: v, ..self }),
    {
        let mut r = self;
        r.num_groups = v;
        r
    }

    /// The width of a query and of a key.
    pub fn with_qk_dim(self, v: usize) -> (r: Self)
        ensures
            r == (InferConfig { qk_dim: v, ..self }),
    {
        let mut r = self;
        r.qk_dim = v;
        r
    }

    /// The width of a value.
    pub fn with_v_dim(self, v: usize) -> (r: Self)
        ensures
            r == (InferConfig { v_dim: v, ..self }),
    {
        let mut r = self;
        r.v_dim = v;
        r
    }

    /// The length of a patch.
    pub fn with_patch_size(self, v: usize) -> (r: Self)
        ensures
            r == (InferConfig { patch_size: v, ..self }),
    {
        let mut r = self;
        r.patch_size = v;
        r
    }

    /// What keeps a norm off zero.
    pub fn with_norm_eps(self, v: u64) -> (r: Self)
        ensures
            r == (InferConfig { norm_eps: v, ..self }),
    {
        let mut r = self;
        r.norm_eps = v;
        r
    }

    /// The layers of a group.
    pub fn with_layer_group_size(self, v: usize) -> (r: Self)
        ensures
            r == (InferConfig { layer_group_size: v, ..self }),
    {
        let mut r = self;
        r.layer_group_size = v;
        r
    }

    /// The layers of a group that attend over variates.
    pub fn with_num_variate_layers_per_group(self, v: usize) -> (r: Self)
        ensures
            r == (InferConfig { num_variate_layers_per_group: v, ..self }),
    {
        let mut r = self;
        r.num_variate_layers_per_group = v;
        r
    }

    /// Whether those layers come first.
    pub fn with_variate_layer_first(self, v: bool) -> (r: Self)
        ensures
            r == (InferConfig { variate_layer_first: v, ..self }),
    {
        let mut r = self;
        r.variate_layer_first = v;
        r
    }

    /// Whether places are rotated in.
    pub fn with_use_xpos(self, v: bool) -> (r: Self)
        ensures
            r == (InferConfig { use_xpos: v, ..self }),
    {
        let mut r = self;
        r.use_xpos = v;
        r
    }

    /// The weight of the residual branches.
    pub fn with_residual_mult(self, v: u64) -> (r: Self)
        ensures
            r == (InferConfig { residual_mult: v, ..self }),
    {
        let mut r = self;
        r.residual_mult = v;
        r
    }

    /// The weight of attention among them.
    pub fn with_residual_attn_ratio(self, v: u64) -> (r: Self)
        ensures
            r == (InferConfig { residual_attn_ratio: v, ..self }),
    {
        let mut r = self;
        r.residual_attn_ratio = v;
        r
    }

    /// Whether the model computes in double precision.
    pub fn with_compute_f64(self, v: bool) -> (r: Self)
        ensures
            r == (InferConfig { compute_f64: v, ..self }),
    {
        let mut r = self;
        r.compute_f64 = v;
        r
    }

    /// The length of a patch.
    pub fn patch_size(&self) -> (r: usize)
        ensures
            r == self.patch_size,
    {
        self.patch_size
    }

    /// Whether the model computes in double precision.
    pub fn compute_f64(&self) -> (r: bool)
        ensures
            r == self.compute_f64,
    {
        self.compute_f64
    }

    /// The published configuration with the members that are there in place of its own.
    pub fn from_members(m: &ConfigMembers) -> (r: Self)
        ensures
            r == overlaid(*m),
    {
        InferConfig {
            d_model: number(&m.d_model, 2048),
            num_layers: number(&m.num_layers, 48),
            num_heads: number(&m.num_heads, 32),
            num_groups: number(&m.num_groups, 32),
            qk_dim: number(&m.qk_dim, 64),
            v_dim: number(&m.v_dim, 64),
            patch_size: number(&m.patch_size, 32),
            norm_eps: double(&m.norm_eps, 0x3f40_624d_d2f1_a9fc),
            layer_group_size: number(&m.layer_group_size, 48),
            num_variate_layers_per_group: number(&m.num_variate_layers_per_group, 1),
            variate_layer_first: flag(&m.variate_layer_first, false),
            use_xpos: flag(&m.use_xpos, true),
            residual_mult: double(&m.residual_mult, 0x3fe8_0000_0000_0000),
            residual_attn_ratio: double(&m.residual_attn_ratio, 0x4014_8b7c_1138_a4ab),
            compute_f64: false,
        }
    }

    /// The configuration of a JSON text. A text that is no JSON, or too long to be read,
    /// has none.
    pub fn from_json_value(config: &str) -> (r: Result<Self, JsonError>)
        ensures
            match r {
                Ok(c) => json::readable(config@) && c == read_from(config@),
                Err(e) => e is Malformed && !json::readable(config@),
            },
    {
        let d_model = match json::member(config, "d_model") {
            Ok(m) => m,
            Err(e) => return Err(e),
        };
        let num_layers = match json::member(config, "num_layers") {
            Ok(m) => m,
            Err(e) => return Err(e),
        };
        let num_heads = match json::member(config, "num_heads") {
            Ok(m) => m,
            Err(e) => return Err(e),
        };
        let num_groups = match json::member(config, "num_groups") {
            Ok(m) => m,
            Err(e) => return Err(e),
        };
        let qk_dim = match json::member(config, "qk_dim") {
            Ok(m) => m,
            Err(e) => return Err(e),
        };
        let v_dim = match json::member(config, "v_dim") {
            Ok(m) => m,
            Err(e) => return Err(e),
        };
        let patch_size = match json::member(config, "patch_size") {
            Ok(m) => m,
            Err(e) => return Err(e),
        };
        let norm_eps = match json::member(config, "norm_eps") {
            Ok(m) => m,
            Err(e) => return Err(e),
        };
        let layer_group_size = match json::member(config, "layer_group_size") {
            Ok(m) => m,
            Err(e) => return Err(e),
        };
        let num_variate_layers_per_group = match json::member(config, "num_variate_layers_per_group") {
            Ok(m) => m,
            Err(e) => return Err(e),
        };
        let variate_layer_first = match json::member(config, "variate_layer_first") {
            Ok(m) => m,
            Err(e) => return Err(e),
        };
        let use_xpos = match json::member(config, "use_xpos") {
            Ok(m) => m,
            Err(e) => return Err(e),
        };
        let residual_mult = match json::member(config, "residual_mult") {
            Ok(m) => m,
            Err(e) => return Err(e),
        };
        let residual_attn_ratio = match json::member(config, "residual_attn_ratio") {
            Ok(m) => m,
            Err(e) => return Err(e),
        };
        let m = ConfigMembers {
            d_model,
            num_layers,
            num_heads,
            num_groups,
            qk_dim,
            v_dim,
            patch_size,
            norm_eps,
            layer_group_size,
            num_variate_layers_per_group,
            variate_layer_first,
            use_xpos,
            residual_mult,
            residual_attn_ratio,
        };
        Ok(Self::from_members(&m))
    }
}

/// What a model is built from: the file of its weights and its configuration.
#[derive(Debug)]
pub struct TotoModelBuilder {
    gguf_path: String,
    config: InferConfig,
}

impl TotoModelBuilder {
    /// The file of the weights.
    pub closed spec fn path(&self) -> Seq<char> {
        self.gguf_path@
    }

    /// The configuration so far.
    pub closed spec fn given(&self) -> InferConfig {
        self.config
    }

    /// Starts with a file and the published configuration.
    pub fn new(gguf_path: &str) -> (r: Self)
        ensures
            r.path() == gguf_path@,
            r.given() == published(),
    {
        TotoModelBuilder { gguf_path: gguf_path.to_string(), config: InferConfig::default() }
    }

    /// Takes a configuration.
    pub fn config(self, config: InferConfig) -> (r: Self)
        ensures
            r.path() == self.path(),
            r.given() == config,
    {
        TotoModelBuilder { gguf_path: self.gguf_path, config }
    }

    /// Takes the configuration of a JSON text. A text that is no JSON, or too long to be read,
    /// has none.
    pub fn config_json(self, config: &str) -> (r: Result<Self, JsonError>)
        ensures
            match r {
                Ok(b) => json::readable(config@) && b.path() == self.path() && b.given() == read_from(config@),
                Err(e) => e is Malformed && !json::readable(config@),
            },
    {
        match InferConfig::from_json_value(config) {
            Ok(config) => Ok(TotoModelBuilder { gguf_path: self.gguf_path, config }),
            Err(e) => Err(e),
        }
    }

    /// Computes in double precision, or not.
    pub fn with_compute_f64(self, v: bool) -> (r: Self)
        ensures
            r.path() == self.path(),
            r.given() == (InferConfig { compute_f64: v, ..self.given() }),
    {
        TotoModelBuilder { gguf_path: self.gguf_path, config: self.config.with_compute_f64(v) }
    }

    /// The file and the configuration to load.
    pub fn build(self) -> (r: (String, InferConfig))
        ensures
            r.0@ == self.path(),
            r.1 == self.given(),
    {
        (self.gguf_path, self.config)
    }
}

/// The published configuration with the members that are there in place of its own.
pub open spec fn overlaid(m: ConfigMembers) -> InferConfig {
    InferConfig {
        d_model: number_or(m.d_model@, 2048),
        num_layers: number_or(m.num_layers@, 48),
        num_heads: number_or(m.num_heads@, 32),
        num_groups: number_or(m.num_groups@, 32),
        qk_dim: number_or(m.qk_dim@, 64),
        v_dim: number_or(m.v_dim@, 64),
        patch_size: number_or(m.patch_size@, 32),
        norm_eps: double_or(m.norm_eps@, 0x3f40_624d_d2f1_a9fc),
        layer_group_size: number_or(m.layer_group_size@, 48),
        num_variate_layers_per_group: number_or(m.num_variate_layers_per_group@, 1),
        variate_layer_first: flag_or(m.variate_layer_first@, false),
        use_xpos: flag_or(m.use_xpos@, true),
        residual_mult: double_or(m.residual_mult@, 0x3fe8_0000_0000_0000),
        residual_attn_ratio: double_or(m.residual_attn_ratio@, 0x4014_8b7c_1138_a4ab),
        compute_f64: false,
    }
}

/// The configuration of a JSON text: the published one with its members in place of its own.
pub open spec fn read_from(config: Seq<char>) -> InferConfig {
    InferConfig {
        d_model: number_or(json::member_of(config, "d_model"@), 2048),
        num_layers: number_or(json::member_of(config, "num_layers"@), 48),
        num_heads: number_or(json::member_of(config, "num_heads"@), 32),
        num_groups: number_or(json::member_of(config, "num_groups"@), 32),
        qk_dim: number_or(json::member_of(config, "qk_dim"@), 64),
        v_dim: number_or(json::member_of(config, "v_dim"@), 64),
        patch_size: number_or(json::member_of(config, "patch_size"@), 32),
        norm_eps: double_or(json::member_of(config, "norm_eps"@), 0x3f40_624d_d2f1_a9fc),
        layer_group_size: number_or(json::member_of(config, "layer_group_size"@), 48),
        num_variate_layers_per_group: number_or(json::member_of(config, "num_variate_layers_per_group"@), 1),
        variate_layer_first: flag_or(json::member_of(config, "variate_layer_first"@), false),
        use_xpos: flag_or(json::member_of(config, "use_xpos"@), true),
        residual_mult: double_or(json::member_of(config, "residual_mult"@), 0x3fe8_0000_0000_0000),
        residual_attn_ratio: double_or(json::member_of(config, "residual_attn_ratio"@), 0x4014_8b7c_1138_a4ab),
        compute_f64: false,
    }
}

/// A layer of every group attends over variates as often as it is said to.
pub proof fn law_variate_layers_repeat(c: InferConfig, idx: int)
    requires
        c.layer_group_size > 0,
        0 <= idx,
    ensures
        c.variate_layer(idx + c.layer_group_size) == c.variate_layer(idx),
{
    vstd::arithmetic::div_mod::lemma_mod_add_multiples_vanish(idx, c.layer_group_size as int);
    assert((idx + c.layer_group_size) == c.layer_group_size + idx);
}

/// A context that does not make up whole patches.
#[derive(Debug, Clone, Copy, PartialEq, Eq, Structural)]
pub struct NotWholePatches {
    pub ctx_len: usize,
    pub patch_size: usize,
}

/// How many patches the context and the forecast make up.
#[derive(Debug, Clone, Copy, PartialEq, Eq, Structural)]
pub struct Patches {
    pub context: usize,
    pub forecast: usize,
}

/// How many patches a context and a forecast make up. The forecast's last patch may be cut.
pub fn patches(ctx_len: usize, prediction_length: usize, patch_size: usize) -> (r: Result<Patches, NotWholePatches>)
    requires
        patch_size > 0,
        prediction_length + patch_size <= usize::MAX,
    ensures
        r == if ctx_len % patch_size == 0 {
            Ok(
                Patches {
                    context: ctx_len / patch_size,
                    forecast: ((prediction_length + patch_size - 1) / (patch_size as int)) as usize,
                },
            )
        } else {
            Err(NotWholePatches { ctx_len, patch_size })
        },
{
    if ctx_len % patch_size != 0 {
        return Err(NotWholePatches { ctx_len, patch_size });
    }
    Ok(Patches { context: ctx_len / patch_size, forecast: (prediction_length + patch_size - 1) / patch_size })
}

/// The forecast's patches hold all its steps, and no patch is left over.
pub proof fn law_forecast_fits(prediction_length: int, patch_size: int)
    requires
        patch_size > 0,
        prediction_length >= 0,
    ensures
        ({
            let n = (prediction_length + patch_size - 1) / patch_size;
            n * patch_size >= prediction_length && (prediction_length > 0 ==> (n - 1) * patch_size
                < prediction_length)
        }),
{
    let n = (prediction_length + patch_size - 1) / patch_size;
    vstd::arithmetic::div_mod::lemma_fundamental_div_mod(prediction_length + patch_size - 1, patch_size);
    vstd::arithmetic::mul::lemma_mul_is_commutative(patch_size, n);
    assert((n - 1) * patch_size == n * patch_size - patch_size) by (nonlinear_arith);
}

/// One number of the model's input. A patch holds its values, then a mark for each that is not
/// observed; the forecast's patches hold zeros that are not observed.
pub open spec fn input_at(
    values: Seq<Vec<u32>>,
    mask: Seq<Vec<bool>>,
    ctx_patches: int,
    total_patches: int,
    patch_size: int,
    q: int,
) -> u32 {
    let v = (q / (2 * patch_size)) / total_patches;
    let p = (q / (2 * patch_size)) % total_patches;
    let i = q % (2 * patch_size);
    if p >= ctx_patches {
        if i < patch_size {
            0
        } else {
            ONE
        }
    } else if i < patch_size {
        if mask[v]@[p * patch_size + i] {
            values[v]@[p * patch_size + i]
        } else {
            0
        }
    } else if mask[v]@[p * patch_size + (i - patch_size)] {
        0
    } else {
        ONE
    }
}

/// The model's input: for every variate its patches. `values` are the scaled observations.
pub fn patch_input(values: &Vec<Vec<u32>>, mask: &Vec<Vec<bool>>, patches: Patches, patch_size: usize) -> (r: Vec<u32>)
    requires
        patch_size > 0,
        2 * patch_size <= usize::MAX,
        patches.context + patches.forecast <= usize::MAX,
        mask@.len() == values@.len(),
        forall|v: int|
            0 <= v < values@.len() ==> (#[trigger] values@[v])@.len() == patches.context * patch_size,
        forall|v: int| 0 <= v < mask@.len() ==> (#[trigger] mask@[v])@.len() == patches.context * patch_size,
    ensures
        r@.len() == values@.len() * (patches.context + patches.forecast) * (2 * patch_size),
        forall|q: int|
            0 <= q < r@.len() ==> #[trigger] r@[q] == input_at(
                values@,
                mask@,
                patches.context as int,
                patches.context + patches.forecast,
                patch_size as int,
                q,
            ),
{
    let n: usize = values.len();
    let total: usize = patches.context + patches.forecast;
    let width: usize = 2 * patch_size;
    let mut out: Vec<u32> = Vec::new();
    let mut v: usize = 0;
    assert(0 * total * width == 0) by (nonlinear_arith);
    while v < n
        invariant
            v <= n == values@.len(),
            mask@.len() == n,
            patch_size > 0,
            width == 2 * patch_size,
            total == patches.context + patches.forecast,
            forall|k: int| 0 <= k < n ==> (#[trigger] values@[k])@.len() == patches.context * patch_size,
            forall|k: int| 0 <= k < n ==> (#[trigger] mask@[k])@.len() == patches.context * patch_size,
            out@.len() == v * total * width,
            forall|q: int|
                0 <= q < out@.len() ==> #[trigger] out@[q] == input_at(
                    values@,
                    mask@,
                    patches.context as int,
                    total as int,
                    patch_size as int,
                    q,
                ),
        decreases n - v,
    {
        let mut p: usize = 0;
        while p < total
            invariant
                v < n == values@.len(),
                mask@.len() == n,
                p <= total,
                patch_size > 0,
                width == 2 * patch_size,
                total == patches.context + patches.forecast,
                values@[v as int]@.len() == patches.context * patch_size,
                mask@[v as int]@.len() == patches.context * patch_size,
                out@.len() == (v * total + p) * width,
                forall|q: int|
                    0 <= q < out@.len() ==> #[trigger] out@[q] == input_at(
                        values@,
                        mask@,
                        patches.context as int,
                        total as int,
                        patch_size as int,
                        q,
                    ),
            decreases total - p,
        {
            let mut i: usize = 0;
            while i < width
                invariant
                    v < n == values@.len(),
                    mask@.len() == n,
                    p < total,
                    i <= width,
                    patch_size > 0,
                    width == 2 * patch_size,
                    total == patches.context + patches.forecast,
                    values@[v as int]@.len() == patches.context * patch_size,
                    mask@[v as int]@.len() == patches.context * patch_size,
                    out@.len() == (v * total + p) * width + i,
                    forall|q: int|
                        0 <= q < out@.len() ==> #[trigger] out@[q] == input_at(
                            values@,
                            mask@,
                            patches.context as int,
                            total as int,
                            patch_size as int,
                            q,
                        ),
                decreases width - i,
            {
                proof {
                    layout::lemma_at3(v as int, p as int, i as int, total as int, width as int);
                    if p < patches.context {
                        layout::lemma_at2_bound(
                            p as int,
                            (if i < patch_size {
                                i as int
                            } else {
                                i - patch_size
                            }),
                            patches.context as int,
                            patch_size as int,
                        );
                    }
                }
                let len: usize = values[v].len();
                let x: u32 = if p >= patches.context {
                    if i < patch_size {
                        0
                    } else {
                        ONE
                    }
                } else if i < patch_size {
                    if mask[v][p * patch_size + i] {
                        values[v][p * patch_size + i]
                    } else {
                        0
                    }
                } else if mask[v][p * patch_size + (i - patch_size)] {
                    0
                } else {
                    ONE
                };
                out.push(x);
                i += 1;
            }
            p += 1;
            assert((v * total + p) * width == (v * total + (p - 1)) * width + width) by (nonlinear_arith);
        }
        v += 1;
        assert(((v - 1) * total + total) * width == v * total * width) by (nonlinear_arith);
    }
    out
}

/// The mask of a sequence: what comes later is not attended to.
pub open spec fn causal(seq: int) -> Seq<u32> {
    Seq::new((seq * seq) as nat, |q: int| if q % seq > q / seq { MINUS_INFINITY } else { 0u32 })
}

/// The mask of a sequence: what comes later is not attended to.
pub fn causal_mask(seq: usize) -> (r: Vec<u32>)
    ensures
        r@ == causal(seq as int),
{
    let mut out: Vec<u32> = Vec::new();
    let mut i: usize = 0;
    assert(0 * seq == 0) by (nonlinear_arith);
    while i < seq
        invariant
            i <= seq,
            out@.len() == i * seq,
            forall|q: int| 0 <= q < out@.len() ==> #[trigger] out@[q] == causal(seq as int)[q],
        decreases seq - i,
    {
        let mut j: usize = 0;
        while j < seq
            invariant
                i < seq,
                j <= seq,
                out@.len() == i * seq + j,
                forall|q: int| 0 <= q < out@.len() ==> #[trigger] out@[q] == causal(seq as int)[q],
            decreases seq - j,
        {
            proof {
                layout::lemma_at2(i as int, j as int, seq as int);
                layout::lemma_at2_bound(i as int, j as int, seq as int, seq as int);
            }
            out.push(if j > i { MINUS_INFINITY } else { 0 });
            j += 1;
        }
        i += 1;
        assert((i - 1) * seq + seq == i * seq) by (nonlinear_arith);
    }
    assert(out@ =~= causal(seq as int));
    out
}

/// A step attends to itself and to all before it, and to nothing after it.
pub proof fn law_mask_is_causal(seq: int, i: int, j: int)
    requires
        0 <= i < seq,
        0 <= j < seq,
    ensures
        0 <= layout::at2(i, j, seq) < causal(seq).len(),
        (causal(seq)[layout::at2(i, j, seq)] == 0) == (j <= i),
{
    layout::lemma_at2(i, j, seq);
    layout::lemma_at2_bound(i, j, seq, seq);
}

/// A number for every step of `n`: that of its patch, and `rest` for steps behind the last patch.
pub open spec fn spread_of<T>(by_patch: Seq<T>, patch_size: int, n: nat, rest: T) -> Seq<T> {
    Seq::new(
        n,
        |t: int|
            if t / patch_size < by_patch.len() {
                by_patch[t / patch_size]
            } else {
                rest
            },
    )
}

/// A number for every step: that of its patch.
pub fn spread<T: Copy>(by_patch: &[T], patch_size: usize, n: usize, rest: T) -> (r: Vec<T>)
    requires
        patch_size > 0,
    ensures
        r@ == spread_of(by_patch@, patch_size as int, n as nat, rest),
{
    let mut out: Vec<T> = Vec::new();
    let mut t: usize = 0;
    while t < n
        invariant
            patch_size > 0,
            t <= n,
            out@.len() == t,
            forall|q: int|
                0 <= q < t ==> #[trigger] out@[q] == spread_of(by_patch@, patch_size as int, n as nat, rest)[q],
        decreases n - t,
    {
        let p: usize = t / patch_size;
        out.push(if p < by_patch.len() { by_patch[p] } else { rest });
        t += 1;
    }
    assert(out@ =~= spread_of(by_patch@, patch_size as int, n as nat, rest));
    out
}

/// The names of the weights outside the blocks.
pub open spec fn outer_names() -> Seq<Seq<char>> {
    seq![
        "patch_proj.linear1.weight"@,
        "patch_proj.linear1.bias"@,
        "patch_proj.linear2.weight"@,
        "patch_proj.linear2.bias"@,
        "patch_proj.skip_proj.weight"@,
        "patch_proj.skip_proj.bias"@,
        "output_head.linear1.weight"@,
        "output_head.linear1.bias"@,
        "output_head.linear2.weight"@,
        "output_head.linear2.bias"@,
        "output_head.skip_proj.weight"@,
        "output_head.skip_proj.bias"@,
    ]
}

/// The names of the weights of a block that must be there.
pub open spec fn block_leaves() -> Seq<Seq<char>> {
    seq!["attn_qkv.weight"@, "attn_output.weight"@, "ffn_up.weight"@, "ffn_down.weight"@]
}

/// The names of the weights of a block that may be missing.
pub open spec fn optional_leaves() -> Seq<Seq<char>> {
    seq!["attn_qkv.bias"@, "attn_output.bias"@, "attn_pds.weight"@]
}

/// The names of the weights that must be there.
pub fn required_weights(config: &InferConfig) -> (r: Vec<String>)
    ensures
        weights::views(r@) == outer_names() + weights::block_names("blk."@, block_leaves(), config.num_layers as nat),
{
    let mut out: Vec<String> = Vec::new();
    let outer: Vec<&str> = vec![
        "patch_proj.linear1.weight",
        "patch_proj.linear1.bias",
        "patch_proj.linear2.weight",
        "patch_proj.linear2.bias",
        "patch_proj.skip_proj.weight",
        "patch_proj.skip_proj.bias",
        "output_head.linear1.weight",
        "output_head.linear1.bias",
        "output_head.linear2.weight",
        "output_head.linear2.bias",
        "output_head.skip_proj.weight",
        "output_head.skip_proj.bias",
    ];
    weights::push_names(&mut out, outer.as_slice());
    assert(weights::str_views(outer@) =~= outer_names());
    let leaves: Vec<&str> = vec!["attn_qkv.weight", "attn_output.weight", "ffn_up.weight", "ffn_down.weight"];
    assert(weights::str_views(leaves@) =~= block_leaves());
    assert(weights::views(out@) =~= outer_names());
    weights::push_block_names(&mut out, "blk.", leaves.as_slice(), config.num_layers);
    out
}

/// The names of the weights that may be missing.
pub fn optional_weights(config: &InferConfig) -> (r: Vec<String>)
    ensures
        weights::views(r@) == weights::block_names("blk."@, optional_leaves(), config.num_layers as nat),
{
    let mut out: Vec<String> = Vec::new();
    let leaves: Vec<&str> = vec!["attn_qkv.bias", "attn_output.bias", "attn_pds.weight"];
    assert(weights::str_views(leaves@) =~= optional_leaves());
    weights::push_block_names(&mut out, "blk.", leaves.as_slice(), config.num_layers);
    assert(weights::views(out@) =~= weights::block_names("blk."@, optional_leaves(), config.num_layers as nat));
    out
}

/// What the model is told of step `i` of patch `p` of variate `v`. The patches of a variate follow
/// each other, and so do the variates; each patch holds its values and then their marks. A step that
/// is observed has its value and the mark zero. One that is not, and every step that is to be
/// forecast, has the value zero and the mark one.
pub proof fn law_unobserved_steps_are_marked(
    values: Seq<Vec<u32>>,
    mask: Seq<Vec<bool>>,
    ctx_patches: int,
    total_patches: int,
    patch_size: int,
    v: int,
    p: int,
    i: int,
)
    requires
        patch_size > 0,
        0 <= ctx_patches <= total_patches,
        0 <= v,
        0 <= p < total_patches,
        0 <= i < patch_size,
    ensures
        ({
            let value = (v * total_patches + p) * (2 * patch_size) + i;
            let mark = value + patch_size;
            let step = p * patch_size + i;
            let observed = p < ctx_patches && mask[v]@[step];
            let input = |q: int| input_at(values, mask, ctx_patches, total_patches, patch_size, q);
            &&& observed ==> input(value) == values[v]@[step] && input(mark) == 0
            &&& !observed ==> input(value) == 0 && input(mark) == 0x3f80_0000u32
        }),
{
    let w = 2 * patch_size;
    let q = v * total_patches + p;
    vstd::arithmetic::div_mod::lemma_fundamental_div_mod_converse(q * w + i, w, q, i);
    vstd::arithmetic::div_mod::lemma_fundamental_div_mod_converse(q * w + i + patch_size, w, q, i + patch_size);
    vstd::arithmetic::div_mod::lemma_fundamental_div_mod_converse(q, total_patches, v, p);
}

/// Of layer `at` of any group: it attends over variates where it is one of the first ones, or one of
/// the last ones, as many as there are to be.
pub proof fn law_variate_layers_of_a_group(c: InferConfig, group: int, at: int)
    requires
        0 <= group,
        0 <= at < c.layer_group_size,
    ensures
        c.variate_layer_first ==> (c.variate_layer(group * c.layer_group_size + at) <==> at
            < c.num_variate_layers_per_group),
        !c.variate_layer_first ==> (c.variate_layer(group * c.layer_group_size + at) <==> c.layer_group_size - at
            <= c.num_variate_layers_per_group),
{
    let g = c.layer_group_size as int;
    vstd::arithmetic::div_mod::lemma_fundamental_div_mod_converse(group * g + at, g, group, at);
}

/// A step does not attend to one that comes later: the mask there is minus infinity.
pub proof fn law_mask_shuts_out_the_future(seq: int, i: int, j: int)
    requires
        0 <= i < seq,
        0 <= j < seq,
    ensures
        causal(seq).len() == seq * seq,
        j > i ==> causal(seq)[i * seq + j] == 0xff80_0000u32,
        j <= i ==> causal(seq)[i * seq + j] == 0,
{
    layout::lemma_at2(i, j, seq);
    layout::lemma_at2_bound(i, j, seq, seq);
    assert(seq * seq >= 0) by (nonlinear_arith);
}

/// Step `i` of patch `p` has the number of the patch, and a step behind all patches has the rest's.
pub proof fn law_steps_have_their_patch<T>(by_patch: Seq<T>, patch_size: int, n: nat, rest: T, p: int, i: int)
    requires
        0 < patch_size,
        0 <= p,
        0 <= i < patch_size,
        p * patch_size + i < n,
    ensures
        spread_of(by_patch, patch_size, n, rest).len() == n,
        p < by_patch.len() ==> spread_of(by_patch, patch_size, n, rest)[p * patch_size + i] == by_patch[p],
        p >= by_patch.len() ==> spread_of(by_patch, patch_size, n, rest)[p * patch_size + i] == rest,
{
    layout::lemma_at2(p, i, patch_size);
}

/// A text's configuration is the published one but for the members that the text has; each of those
/// is the text's.
pub proof fn law_text_overrides_published(config: Seq<char>)
    ensures
        ({
            let c = read_from(config);
            let m = |key: Seq<char>| json::member_of(config, key);
            &&& m("d_model"@).unsigned is None ==> c.d_model == 2048
            &&& m("d_model"@).unsigned matches Some(v) ==> c.d_model == v as usize
            &&& m("num_layers"@).unsigned is None ==> c.num_layers == 48
            &&& m("num_layers"@).unsigned matches Some(v) ==> c.num_layers == v as usize
            &&& m("num_heads"@).unsigned is None ==> c.num_heads == 32
            &&& m("num_heads"@).unsigned matches Some(v) ==> c.num_heads == v as usize
            &&& m("num_groups"@).unsigned is None ==> c.num_groups == 32
            &&& m("num_groups"@).unsigned matches Some(v) ==> c.num_groups == v as usize
            &&& m("qk_dim"@).unsigned is None ==> c.qk_dim == 64
            &&& m("qk_dim"@).unsigned matches Some(v) ==> c.qk_dim == v as usize
            &&& m("v_dim"@).unsigned is None ==> c.v_dim == 64
            &&& m("v_dim"@).unsigned matches Some(v) ==> c.v_dim == v as usize
            &&& m("patch_size"@).unsigned is None ==> c.patch_size == 32
            &&& m("patch_size"@).unsigned matches Some(v) ==> c.patch_size == v as usize
            &&& m("norm_eps"@).double is None ==> c.norm_eps == 0x3f40_624d_d2f1_a9fc
            &&& m("norm_eps"@).double matches Some(v) ==> c.norm_eps == v
            &&& m("layer_group_size"@).unsigned is None ==> c.layer_group_size == 48
            &&& m("layer_group_size"@).unsigned matches Some(v) ==> c.layer_group_size == v as usize
            &&& m("num_variate_layers_per_group"@).unsigned is None ==> c.num_variate_layers_per_group == 1
            &&& m("num_variate_layers_per_group"@).unsigned matches Some(v) ==> c.num_variate_layers_per_group
                == v as usize
            &&& m("variate_layer_first"@).boolean is None ==> !c.variate_layer_first
            &&& m("variate_layer_first"@).boolean matches Some(v) ==> c.variate_layer_first == v
            &&& m("use_xpos"@).boolean is None ==> c.use_xpos
            &&& m("use_xpos"@).boolean matches Some(v) ==> c.use_xpos == v
            &&& m("residual_mult"@).double is None ==> c.residual_mult == 0x3fe8_0000_0000_0000
            &&& m("residual_mult"@).double matches Some(v) ==> c.residual_mult == v
            &&& m("residual_attn_ratio"@).double is None ==> c.residual_attn_ratio == 0x4014_8b7c_1138_a4ab
            &&& m("residual_attn_ratio"@).double matches Some(v) ==> c.residual_attn_ratio == v
            &&& !c.compute_f64
        }),
{
}

/// A text without any member has the published configuration, and members give what a text with them
/// gives.
pub proof fn law_configurations_agree(m: ConfigMembers, config: Seq<char>)
    requires
        m.d_model@ == json::member_of(config, "d_model"@),
        m.num_layers@ == json::member_of(config, "num_layers"@),
        m.num_heads@ == json::member_of(config, "num_heads"@),
        m.num_groups@ == json::member_of(config, "num_groups"@),
        m.qk_dim@ == json::member_of(config, "qk_dim"@),
        m.v_dim@ == json::member_of(config, "v_dim"@),
        m.patch_size@ == json::member_of(config, "patch_size"@),
        m.norm_eps@ == json::member_of(config, "norm_eps"@),
        m.layer_group_size@ == json::member_of(config, "layer_group_size"@),
        m.num_variate_layers_per_group@ == json::member_of(config, "num_variate_layers_per_group"@),
        m.variate_layer_first@ == json::member_of(config, "variate_layer_first"@),
        m.use_xpos@ == json::member_of(config, "use_xpos"@),
        m.residual_mult@ == json::member_of(config, "residual_mult"@),
        m.residual_attn_ratio@ == json::member_of(config, "residual_attn_ratio"@),
    ensures
        overlaid(m) == read_from(config),
        (forall|key: Seq<char>|
            (#[trigger] json::member_of(config, key)).unsigned is None && json::member_of(config, key).double is None
                && json::member_of(config, key).boolean is None) ==> read_from(config) == published(),
{
}

/// The names of the weights.
pub proof fn law_weight_names()
    ensures
        outer_names().len() == 12,
        outer_names()[0] == "patch_proj.linear1.weight"@,
        outer_names()[1] == "patch_proj.linear1.bias"@,
        outer_names()[2] == "patch_proj.linear2.weight"@,
        outer_names()[3] == "patch_proj.linear2.bias"@,
        outer_names()[4] == "patch_proj.skip_proj.weight"@,
        outer_names()[5] == "patch_proj.skip_proj.bias"@,
        outer_names()[6] == "output_head.linear1.weight"@,
        outer_names()[7] == "output_head.linear1.bias"@,
        outer_names()[8] == "output_head.linear2.weight"@,
        outer_names()[9] == "output_head.linear2.bias"@,
        outer_names()[10] == "output_head.skip_proj.weight"@,
        outer_names()[11] == "output_head.skip_proj.bias"@,
        block_leaves().len() == 4,
        block_leaves()[0] == "attn_qkv.weight"@,
        block_leaves()[1] == "attn_output.weight"@,
        block_leaves()[2] == "ffn_up.weight"@,
        block_leaves()[3] == "ffn_down.weight"@,
        optional_leaves().len() == 3,
        optional_leaves()[0] == "attn_qkv.bias"@,
        optional_leaves()[1] == "attn_output.bias"@,
        optional_leaves()[2] == "attn_pds.weight"@,
{
}

/// A member that is given is taken, and the default stands for one that is not.
pub proof fn law_members_or_defaults(m: MemberView, number: usize, double: u64, flag: bool)
    ensures
        m.unsigned is None ==> number_or(m, number) == number,
        m.unsigned matches Some(v) ==> (v <= usize::MAX ==> number_or(m, number) == v),
        m.double is None ==> double_or(m, double) == double,
        m.double matches Some(v) ==> double_or(m, double) == v,
        m.boolean is None ==> flag_or(m, flag) == flag,
        m.boolean matches Some(v) ==> flag_or(m, flag) == v,
{
}

} // verus!
