//! FlowState's inference: its configuration and how its input and its output are laid out.
//!
//! Values and settings with a fraction are held as the bits of singles.

use vstd::prelude::*;

use crate::layout;
use crate::models::weights;

verus! {

/// The bits of the single 1e-5.
pub const EPS: u32 = 0x3727_c5ac;

/// What a published configuration says, its defaults filled in.
#[derive(Debug)]
pub struct FlowStateConfig {
    pub encoder_num_layers: u32,
    pub embedding_feature_dim: u32,
    pub encoder_state_dim: u32,
    /// One input for the values, and one more where missing values are marked.
    pub n_inputs: u32,
    pub decoder_dim: u32,
    pub decoder_patch_len: u32,
    pub quantiles: Vec<u32>,
    pub basis_range: (u32, u32),
    pub context_length: u32,
}

/// How the model is run.
#[derive(Debug)]
pub struct InferConfig {
    pub num_layers: usize,
    pub embed_dim: usize,
    pub state_dim: usize,
    pub n_inputs: usize,
    pub decoder_dim: usize,
    pub decoder_patch_len: usize,
    pub quantiles: Vec<u32>,
    pub basis_range: (u32, u32),
    pub context_length: usize,
    pub eps: u32,
}

/// Whether the model is run as the configuration says.
pub open spec fn runs(c: FlowStateConfig, r: InferConfig) -> bool {
    &&& r.num_layers == c.encoder_num_layers
    &&& r.embed_dim == c.embedding_feature_dim
    &&& r.state_dim == c.encoder_state_dim
    &&& r.n_inputs == c.n_inputs
    &&& r.decoder_dim == c.decoder_dim
    &&& r.decoder_patch_len == c.decoder_patch_len
    &&& r.quantiles@ == c.quantiles@
    &&& r.basis_range == c.basis_range
    &&& r.context_length == c.context_length
    &&& r.eps == EPS
}

impl Clone for InferConfig {
    fn clone(&self) -> (r: Self)
        ensures
            r.quantiles@ == self.quantiles@,
            r == (InferConfig { quantiles: r.quantiles, ..*self }),
    {
        let mut quantiles: Vec<u32> = Vec::new();
        quantiles.extend_from_slice(self.quantiles.as_slice());
        assert(quantiles@ =~= self.quantiles@);
        InferConfig {
            num_layers: self.num_layers,
            embed_dim: self.embed_dim,
            state_dim: self.state_dim,
            n_inputs: self.n_inputs,
            decoder_dim: self.decoder_dim,
            decoder_patch_len: self.decoder_patch_len,
            quantiles,
            basis_range: self.basis_range,
            context_length: self.context_length,
            eps: self.eps,
        }
    }
}

impl InferConfig {
    /// How the model is run by a configuration.
    pub fn from_config(c: &FlowStateConfig) -> (r: Self)
        ensures
            runs(*c, r),
    {
        let mut quantiles: Vec<u32> = Vec::new();
        quantiles.extend_from_slice(c.quantiles.as_slice());
        assert(quantiles@ =~= c.quantiles@);
        InferConfig {
            num_layers: c.encoder_num_layers as usize,
            embed_dim: c.embedding_feature_dim as usize,
            state_dim: c.encoder_state_dim as usize,
            n_inputs: c.n_inputs as usize,
            decoder_dim: c.decoder_dim as usize,
            decoder_patch_len: c.decoder_patch_len as usize,
            quantiles,
            basis_range: c.basis_range,
            context_length: c.context_length as usize,
            eps: EPS,
        }
    }

    /// The levels of the quantiles.
    pub fn quantiles(&self) -> (r: &Vec<u32>)
        ensures
            r@ == self.quantiles@,
    {
        &self.quantiles
    }

    /// The place of the median, given the place of the level one half, if there is one: else it is the
    /// middle of the levels.
    pub fn median_index(&self, half: Option<usize>) -> (r: usize)
        ensures
            r == (match half {
                Some(i) => i,
                None => (self.quantiles@.len() / 2) as usize,
            }),
    {
        match half {
            Some(i) => i,
            None => self.quantiles.len() / 2,
        }
    }

    /// Where the context that is used starts: it is no longer than the model's.
    pub fn context_start(&self, len: usize) -> (r: usize)
        ensures
            r <= len,
            len - r == (if len < self.context_length {
                len
            } else {
                self.context_length
            }),
    {
        if len < self.context_length {
            0
        } else {
            len - self.context_length
        }
    }
}

/// What is wrong with a model that is built without a configuration.
#[derive(Debug, Clone, Copy, PartialEq, Eq, Structural)]
pub struct NoConfig;

impl NoConfig {
    /// The error in words.
    pub fn message(self) -> (r: String)
        ensures
            r@ == "FlowStateModelBuilder: no config set — call .config(...) or .config_from(...)"@,
    {
        "FlowStateModelBuilder: no config set — call .config(...) or .config_from(...)".to_string()
    }
}

/// What a model is built from: the file of its weights and its configuration, if it was given.
#[derive(Debug)]
pub struct FlowStateModelBuilder {
    gguf_path: String,
    config: Option<InferConfig>,
}

impl FlowStateModelBuilder {
    /// The file of the weights.
    pub closed spec fn path(&self) -> Seq<char> {
        self.gguf_path@
    }

    /// The configuration that was given last.
    pub closed spec fn given(&self) -> Option<InferConfig> {
        self.config
    }

    /// Starts with a file.
    pub fn new(gguf_path: &str) -> (r: Self)
        ensures
            r.path() == gguf_path@,
            r.given() is None,
    {
        FlowStateModelBuilder { gguf_path: gguf_path.to_string(), config: None }
    }

    /// Takes a configuration.
    pub fn config(self, config: InferConfig) -> (r: Self)
        ensures
            r.path() == self.path(),
            r.given() == Some(config),
    {
        FlowStateModelBuilder { gguf_path: self.gguf_path, config: Some(config) }
    }

    /// Takes a published configuration.
    pub fn config_from(self, c: &FlowStateConfig) -> (r: Self)
        ensures
            r.path() == self.path(),
            r.given() matches Some(config) && runs(*c, config),
    {
        FlowStateModelBuilder { gguf_path: self.gguf_path, config: Some(InferConfig::from_config(c)) }
    }

    /// The file and the configuration to load.
    pub fn build(self) -> (r: Result<(String, InferConfig), NoConfig>)
        ensures
            match self.given() {
                Some(config) => r matches Ok((path, c)) && path@ == self.path() && c == config,
                None => r matches Err(_),
            },
    {
        match self.config {
            Some(config) => Ok((self.gguf_path, config)),
            None => Err(NoConfig),
        }
    }
}

/// The model's input: for every step its value, and zeros for the other inputs.
pub open spec fn input_of(values: Seq<u32>, n_inputs: int) -> Seq<u32> {
    Seq::new(
        (values.len() * n_inputs) as nat,
        |q: int|
            if q % n_inputs == 0 {
                values[q / n_inputs]
            } else {
                0u32
            },
    )
}

/// The model's input: for every step its value, and zeros for the other inputs.
pub fn input(values: &[u32], n_inputs: usize) -> (r: Vec<u32>)
    requires
        n_inputs > 0,
    ensures
        r@ == input_of(values@, n_inputs as int),
{
    let mut out: Vec<u32> = Vec::new();
    let mut t: usize = 0;
    assert(0 * n_inputs == 0) by (nonlinear_arith);
    while t < values.len()
        invariant
            n_inputs > 0,
            t <= values@.len(),
            out@.len() == t * n_inputs,
            forall|q: int| 0 <= q < out@.len() ==> #[trigger] out@[q] == input_of(values@, n_inputs as int)[q],
        decreases values@.len() - t,
    {
        let mut c: usize = 0;
        while c < n_inputs
            invariant
                t < values@.len(),
                c <= n_inputs,
                out@.len() == t * n_inputs + c,
                forall|q: int| 0 <= q < out@.len() ==> #[trigger] out@[q] == input_of(values@, n_inputs as int)[q],
            decreases n_inputs - c,
        {
            proof {
                layout::lemma_at2(t as int, c as int, n_inputs as int);
                layout::lemma_at2_bound(t as int, c as int, values@.len() as int, n_inputs as int);
            }
            out.push(if c == 0 { values[t] } else { 0 });
            c += 1;
        }
        t += 1;
        assert((t - 1) * n_inputs + n_inputs == t * n_inputs) by (nonlinear_arith);
    }
    assert(out@ =~= input_of(values@, n_inputs as int));
    out
}

/// The column of a matrix that is given row after row.
pub fn column<T: Copy>(flat: &[T], rows: usize, cols: usize, c: usize) -> (r: Vec<T>)
    requires
        c < cols,
        flat@.len() == rows * cols,
    ensures
        r@.len() == rows,
        forall|i: int| 0 <= i < rows ==> #[trigger] r@[i] == flat@[layout::at2(i, c as int, cols as int)],
{
    let mut out: Vec<T> = Vec::new();
    let len: usize = flat.len();
    let mut i: usize = 0;
    while i < rows
        invariant
            i <= rows,
            c < cols,
            len == flat@.len() == rows * cols,
            out@.len() == i,
            forall|q: int| 0 <= q < i ==> #[trigger] out@[q] == flat@[layout::at2(q, c as int, cols as int)],
        decreases rows - i,
    {
        proof {
            layout::lemma_at2_bound(i as int, c as int, rows as int, cols as int);
            assert(i * cols >= 0) by (nonlinear_arith);
        }
        out.push(flat[i * cols + c]);
        i += 1;
    }
    out
}

/// The names of the weights outside the blocks.
pub open spec fn outer_names() -> Seq<Seq<char>> {
    seq!["embed.weight"@, "embed.bias"@, "decoder.weight"@, "decoder.bias"@]
}

/// The names of the weights of a block.
pub open spec fn block_leaves() -> Seq<Seq<char>> {
    seq![
        "ssm.log_lambda_real"@,
        "ssm.lambda_imag"@,
        "ssm.b_r"@,
        "ssm.b_i"@,
        "ssm.c_r"@,
        "ssm.c_i"@,
        "ssm.d"@,
        "ssm.log_delta"@,
        "out.weight"@,
        "out.bias"@,
        "norm.weight"@,
        "norm.bias"@,
    ]
}

/// The names of all weights.
pub fn weight_names(num_layers: usize) -> (r: Vec<String>)
    ensures
        weights::views(r@) == outer_names() + weights::block_names("blk."@, block_leaves(), num_layers as nat),
{
    let mut out: Vec<String> = Vec::new();
    let outer: Vec<&str> = vec!["embed.weight", "embed.bias", "decoder.weight", "decoder.bias"];
    weights::push_names(&mut out, outer.as_slice());
    assert(weights::str_views(outer@) =~= outer_names());
    assert(weights::views(out@) =~= outer_names());
    let leaves: Vec<&str> = vec![
        "ssm.log_lambda_real",
        "ssm.lambda_imag",
        "ssm.b_r",
        "ssm.b_i",
        "ssm.c_r",
        "ssm.c_i",
        "ssm.d",
        "ssm.log_delta",
        "out.weight",
        "out.bias",
        "norm.weight",
        "norm.bias",
    ];
    assert(weights::str_views(leaves@) =~= block_leaves());
    weights::push_block_names(&mut out, "blk.", leaves.as_slice(), num_layers);
    out
}

/// The first input of every step is its value, and the others are zero.
pub proof fn law_first_input_is_the_value(values: Seq<u32>, n_inputs: int, t: int, c: int)
    requires
        0 <= t < values.len(),
        0 <= c < n_inputs,
    ensures
        input_of(values, n_inputs).len() == values.len() * n_inputs,
        c == 0 ==> input_of(values, n_inputs)[t * n_inputs + c] == values[t],
        c > 0 ==> input_of(values, n_inputs)[t * n_inputs + c] == 0,
{
    layout::lemma_at2(t, c, n_inputs);
    layout::lemma_at2_bound(t, c, values.len() as int, n_inputs);
}

/// The model is run with the numbers of its configuration.
pub proof fn law_runs_as_configured(c: FlowStateConfig, r: InferConfig)
    requires
        runs(c, r),
    ensures
        r.num_layers == c.encoder_num_layers,
        r.embed_dim == c.embedding_feature_dim,
        r.state_dim == c.encoder_state_dim,
        r.n_inputs == c.n_inputs,
        r.decoder_dim == c.decoder_dim,
        r.decoder_patch_len == c.decoder_patch_len,
        r.quantiles@ == c.quantiles@,
        r.basis_range == c.basis_range,
        r.context_length == c.context_length,
        r.eps == 0x3727_c5ac,
{
}

/// The names of the weights.
pub proof fn law_weight_names()
    ensures
        outer_names().len() == 4,
        outer_names()[0] == "embed.weight"@,
        outer_names()[1] == "embed.bias"@,
        outer_names()[2] == "decoder.weight"@,
        outer_names()[3] == "decoder.bias"@,
        block_leaves().len() == 12,
        block_leaves()[0] == "ssm.log_lambda_real"@,
        block_leaves()[1] == "ssm.lambda_imag"@,
        block_leaves()[2] == "ssm.b_r"@,
        block_leaves()[3] == "ssm.b_i"@,
        block_leaves()[4] == "ssm.c_r"@,
        block_leaves()[5] == "ssm.c_i"@,
        block_leaves()[6] == "ssm.d"@,
        block_leaves()[7] == "ssm.log_delta"@,
        block_leaves()[8] == "out.weight"@,
        block_leaves()[9] == "out.bias"@,
        block_leaves()[10] == "norm.weight"@,
        block_leaves()[11] == "norm.bias"@,
{
}

} // verus!
