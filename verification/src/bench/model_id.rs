//! The benchmarked models and what they are called.

use vstd::prelude::*;

use crate::text;

verus! {

/// A benchmarked model.
#[derive(Clone, Copy, Debug, PartialEq, Eq, Hash, Structural)]
pub enum ModelId {
    Toto,
    Chronos,
    TimesFM,
    Sundial,
    Ttm,
    LagLlama,
    Moment,
    Moirai,
    Moirai2,
    FlowState,
    Tirex,
}

/// All models, in the order in which they are reported.
pub open spec fn all_models() -> Seq<ModelId> {
    seq![
        ModelId::Toto,
        ModelId::Chronos,
        ModelId::TimesFM,
        ModelId::Sundial,
        ModelId::Ttm,
        ModelId::LagLlama,
        ModelId::Moment,
        ModelId::Moirai,
        ModelId::Moirai2,
        ModelId::FlowState,
        ModelId::Tirex,
    ]
}

impl ModelId {
    /// The name that the command line uses.
    pub open spec fn name(self) -> Seq<char> {
        match self {
            ModelId::Toto => "toto"@,
            ModelId::Chronos => "chronos"@,
            ModelId::TimesFM => "timesfm"@,
            ModelId::Sundial => "sundial"@,
            ModelId::Ttm => "ttm"@,
            ModelId::LagLlama => "lag_llama"@,
            ModelId::Moment => "moment"@,
            ModelId::Moirai => "moirai"@,
            ModelId::Moirai2 => "moirai2"@,
            ModelId::FlowState => "flowstate"@,
            ModelId::Tirex => "tirex"@,
        }
    }

    /// The letter that stands for the model in the label of a combination.
    pub open spec fn letter_of(self) -> char {
        match self {
            ModelId::Toto => 'T',
            ModelId::Chronos => 'C',
            ModelId::TimesFM => 'F',
            ModelId::Sundial => 'S',
            ModelId::Ttm => 'K',
            ModelId::LagLlama => 'L',
            ModelId::Moment => 'M',
            ModelId::Moirai => 'O',
            ModelId::Moirai2 => 'P',
            ModelId::FlowState => 'W',
            ModelId::Tirex => 'X',
        }
    }

    /// The name that reports use.
    pub open spec fn label_text(self) -> Seq<char> {
        match self {
            ModelId::Toto => "Toto"@,
            ModelId::Chronos => "Chronos"@,
            ModelId::TimesFM => "TimesFM"@,
            ModelId::Sundial => "Sundial"@,
            ModelId::Ttm => "TTM"@,
            ModelId::LagLlama => "Lag-Llama"@,
            ModelId::Moment => "Moment"@,
            ModelId::Moirai => "Moirai"@,
            ModelId::Moirai2 => "Moirai-2"@,
            ModelId::FlowState => "FlowState"@,
            ModelId::Tirex => "TiRex"@,
        }
    }

    /// The repository that holds the model.
    pub open spec fn repository(self) -> Seq<char> {
        match self {
            ModelId::Toto => "Datadog/Toto-2.0-2.5B"@,
            ModelId::Chronos => "amazon/chronos-2"@,
            ModelId::TimesFM => "google/timesfm-2.5-200m-pytorch"@,
            ModelId::Sundial => "thuml/sundial-base-128m"@,
            ModelId::Ttm => "ibm-granite/granite-timeseries-ttm-r2"@,
            ModelId::LagLlama => "time-series-foundation-models/Lag-Llama"@,
            ModelId::Moment => "AutonLab/MOMENT-1-large"@,
            ModelId::Moirai => "Salesforce/moirai-1.0-R-large"@,
            ModelId::Moirai2 => "Salesforce/moirai-2.0-R-small"@,
            ModelId::FlowState => "ibm-granite/granite-timeseries-flowstate-r1"@,
            ModelId::Tirex => "NX-AI/TiRex"@,
        }
    }

    /// The architecture in a few words.
    pub open spec fn architecture(self) -> Seq<char> {
        match self {
            ModelId::Toto => "Quantile transformer (Datadog)"@,
            ModelId::Chronos => "Tokenised probabilistic transformer (Amazon)"@,
            ModelId::TimesFM => "Patch-based decoder (Google)"@,
            ModelId::Sundial => "Flow-matching decoder transformer (thuml)"@,
            ModelId::Ttm => "Tiny time-mixer (IBM)"@,
            ModelId::LagLlama => "Lag-feature LLM decoder"@,
            ModelId::Moment => "Masked patch encoder, T5 attention (CMU)"@,
            ModelId::Moirai => "Universal forecasting encoder (Salesforce)"@,
            ModelId::Moirai2 => "Universal forecasting decoder (Salesforce)"@,
            ModelId::FlowState => "SSM encoder-decoder with Legendre quantile basis (IBM)"@,
            ModelId::Tirex => "Patch-based encoder with RoPE (NX-AI)"@,
        }
    }

    /// Whether the model needs a configuration file beside its weights.
    pub open spec fn wants_config(self) -> bool {
        self == ModelId::Toto || self == ModelId::Chronos || self == ModelId::FlowState || self == ModelId::Ttm
    }

    /// All models, in the order in which they are reported.
    pub fn all() -> (r: Vec<ModelId>)
        ensures
            r@ == all_models(),
    {
        let r: Vec<ModelId> = vec![
            ModelId::Toto,
            ModelId::Chronos,
            ModelId::TimesFM,
            ModelId::Sundial,
            ModelId::Ttm,
            ModelId::LagLlama,
            ModelId::Moment,
            ModelId::Moirai,
            ModelId::Moirai2,
            ModelId::FlowState,
            ModelId::Tirex,
        ];
        assert(r@ =~= all_models());
        r
    }

    /// The name that the command line uses.
    pub fn as_str(self) -> (r: &'static str)
        ensures
            r@ == self.name(),
    {
        match self {
            ModelId::Toto => "toto",
            ModelId::Chronos => "chronos",
            ModelId::TimesFM => "timesfm",
            ModelId::Sundial => "sundial",
            ModelId::Ttm => "ttm",
            ModelId::LagLlama => "lag_llama",
            ModelId::Moment => "moment",
            ModelId::Moirai => "moirai",
            ModelId::Moirai2 => "moirai2",
            ModelId::FlowState => "flowstate",
            ModelId::Tirex => "tirex",
        }
    }

    /// The model of the given name.
    pub fn parse(s: &str) -> (r: Option<ModelId>)
        ensures
            match r {
                Some(m) => m.name() == s@,
                None => forall|m: ModelId| #[trigger] m.name() != s@,
            },
    {
        let all: Vec<ModelId> = Self::all();
        let mut i: usize = 0;
        while i < all.len()
            invariant
                i <= all@.len(),
                all@ == all_models(),
                forall|q: int| 0 <= q < i ==> #[trigger] all@[q].name() != s@,
            decreases all@.len() - i,
        {
            if text::same(all[i].as_str(), s) {
                return Some(all[i]);
            }
            i += 1;
        }
        proof {
            assert forall|m: ModelId| #[trigger] m.name() != s@ by {
                let q = lemma_listed(m);
                assert(all@[q].name() != s@);
            }
        }
        None
    }

    /// The letter that stands for the model in the label of a combination.
    pub fn letter(self) -> (r: char)
        ensures
            r == self.letter_of(),
    {
        match self {
            ModelId::Toto => 'T',
            ModelId::Chronos => 'C',
            ModelId::TimesFM => 'F',
            ModelId::Sundial => 'S',
            ModelId::Ttm => 'K',
            ModelId::LagLlama => 'L',
            ModelId::Moment => 'M',
            ModelId::Moirai => 'O',
            ModelId::Moirai2 => 'P',
            ModelId::FlowState => 'W',
            ModelId::Tirex => 'X',
        }
    }

    /// The name that reports use.
    pub fn label(self) -> (r: &'static str)
        ensures
            r@ == self.label_text(),
    {
        match self {
            ModelId::Toto => "Toto",
            ModelId::Chronos => "Chronos",
            ModelId::TimesFM => "TimesFM",
            ModelId::Sundial => "Sundial",
            ModelId::Ttm => "TTM",
            ModelId::LagLlama => "Lag-Llama",
            ModelId::Moment => "Moment",
            ModelId::Moirai => "Moirai",
            ModelId::Moirai2 => "Moirai-2",
            ModelId::FlowState => "FlowState",
            ModelId::Tirex => "TiRex",
        }
    }

    /// The repository that holds the model.
    pub fn repo_id(self) -> (r: &'static str)
        ensures
            r@ == self.repository(),
    {
        match self {
            ModelId::Toto => "Datadog/Toto-2.0-2.5B",
            ModelId::Chronos => "amazon/chronos-2",
            ModelId::TimesFM => "google/timesfm-2.5-200m-pytorch",
            ModelId::Sundial => "thuml/sundial-base-128m",
            ModelId::Ttm => "ibm-granite/granite-timeseries-ttm-r2",
            ModelId::LagLlama => "time-series-foundation-models/Lag-Llama",
            ModelId::Moment => "AutonLab/MOMENT-1-large",
            ModelId::Moirai => "Salesforce/moirai-1.0-R-large",
            ModelId::Moirai2 => "Salesforce/moirai-2.0-R-small",
            ModelId::FlowState => "ibm-granite/granite-timeseries-flowstate-r1",
            ModelId::Tirex => "NX-AI/TiRex",
        }
    }

    /// The architecture in a few words.
    pub fn arch(self) -> (r: &'static str)
        ensures
            r@ == self.architecture(),
    {
        match self {
            ModelId::Toto => "Quantile transformer (Datadog)",
            ModelId::Chronos => "Tokenised probabilistic transformer (Amazon)",
            ModelId::TimesFM => "Patch-based decoder (Google)",
            ModelId::Sundial => "Flow-matching decoder transformer (thuml)",
            ModelId::Ttm => "Tiny time-mixer (IBM)",
            ModelId::LagLlama => "Lag-feature LLM decoder",
            ModelId::Moment => "Masked patch encoder, T5 attention (CMU)",
            ModelId::Moirai => "Universal forecasting encoder (Salesforce)",
            ModelId::Moirai2 => "Universal forecasting decoder (Salesforce)",
            ModelId::FlowState => "SSM encoder-decoder with Legendre quantile basis (IBM)",
            ModelId::Tirex => "Patch-based encoder with RoPE (NX-AI)",
        }
    }

    /// Whether the model needs a configuration file beside its weights.
    pub fn needs_config(self) -> (r: bool)
        ensures
            r == self.wants_config(),
    {
        match self {
            ModelId::Toto | ModelId::Chronos | ModelId::FlowState | ModelId::Ttm => true,
            _ => false,
        }
    }
}

/// The place of a model in the list of all.
pub proof fn lemma_listed(m: ModelId) -> (q: int)
    ensures
        0 <= q < all_models().len(),
        all_models()[q] == m,
{
    match m {
        ModelId::Toto => 0,
        ModelId::Chronos => 1,
        ModelId::TimesFM => 2,
        ModelId::Sundial => 3,
        ModelId::Ttm => 4,
        ModelId::LagLlama => 5,
        ModelId::Moment => 6,
        ModelId::Moirai => 7,
        ModelId::Moirai2 => 8,
        ModelId::FlowState => 9,
        ModelId::Tirex => 10,
    }
}

/// Different models have different letters, so that a label tells which models it combines.
pub proof fn law_letters_differ(a: ModelId, b: ModelId)
    requires
        a.letter_of() == b.letter_of(),
    ensures
        a == b,
{
}

/// Different models have different names, so that every model is found by its name.
pub proof fn law_names_differ(a: ModelId, b: ModelId)
    requires
        a.name() == b.name(),
    ensures
        a == b,
{
    reveal_strlit("toto");
    reveal_strlit("chronos");
    reveal_strlit("timesfm");
    reveal_strlit("sundial");
    reveal_strlit("ttm");
    reveal_strlit("lag_llama");
    reveal_strlit("moment");
    reveal_strlit("moirai");
    reveal_strlit("moirai2");
    reveal_strlit("flowstate");
    reveal_strlit("tirex");
    assert("toto"@.len() == 4);
    assert("chronos"@.len() == 7);
    assert("timesfm"@.len() == 7);
    assert("sundial"@.len() == 7);
    assert("ttm"@.len() == 3);
    assert("lag_llama"@.len() == 9);
    assert("moment"@.len() == 6);
    assert("moirai"@.len() == 6);
    assert("moirai2"@.len() == 7);
    assert("flowstate"@.len() == 9);
    assert("tirex"@.len() == 5);
    assert("chronos"@[0] == 'c');
    assert("timesfm"@[0] == 't');
    assert("sundial"@[0] == 's');
    assert("moirai2"@[0] == 'm');
    assert("lag_llama"@[0] == 'l');
    assert("flowstate"@[0] == 'f');
    assert("moment"@[2] == 'm');
    assert("moirai"@[2] == 'i');
}

/// What the models are called, their letters, where they come from, and their order.
pub proof fn law_models_are_called()
    ensures
        ModelId::Toto.name() == "toto"@,
        ModelId::Chronos.name() == "chronos"@,
        ModelId::TimesFM.name() == "timesfm"@,
        ModelId::Sundial.name() == "sundial"@,
        ModelId::Ttm.name() == "ttm"@,
        ModelId::LagLlama.name() == "lag_llama"@,
        ModelId::Moment.name() == "moment"@,
        ModelId::Moirai.name() == "moirai"@,
        ModelId::Moirai2.name() == "moirai2"@,
        ModelId::FlowState.name() == "flowstate"@,
        ModelId::Tirex.name() == "tirex"@,
        ModelId::Toto.letter_of() == 'T',
        ModelId::Chronos.letter_of() == 'C',
        ModelId::TimesFM.letter_of() == 'F',
        ModelId::Sundial.letter_of() == 'S',
        ModelId::Ttm.letter_of() == 'K',
        ModelId::LagLlama.letter_of() == 'L',
        ModelId::Moment.letter_of() == 'M',
        ModelId::Moirai.letter_of() == 'O',
        ModelId::Moirai2.letter_of() == 'P',
        ModelId::FlowState.letter_of() == 'W',
        ModelId::Tirex.letter_of() == 'X',
        ModelId::Toto.label_text() == "Toto"@,
        ModelId::Chronos.label_text() == "Chronos"@,
        ModelId::TimesFM.label_text() == "TimesFM"@,
        ModelId::Sundial.label_text() == "Sundial"@,
        ModelId::Ttm.label_text() == "TTM"@,
        ModelId::LagLlama.label_text() == "Lag-Llama"@,
        ModelId::Moment.label_text() == "Moment"@,
        ModelId::Moirai.label_text() == "Moirai"@,
        ModelId::Moirai2.label_text() == "Moirai-2"@,
        ModelId::FlowState.label_text() == "FlowState"@,
        ModelId::Tirex.label_text() == "TiRex"@,
        ModelId::Toto.repository() == "Datadog/Toto-2.0-2.5B"@,
        ModelId::Chronos.repository() == "amazon/chronos-2"@,
        ModelId::TimesFM.repository() == "google/timesfm-2.5-200m-pytorch"@,
        ModelId::Sundial.repository() == "thuml/sundial-base-128m"@,
        ModelId::Ttm.repository() == "ibm-granite/granite-timeseries-ttm-r2"@,
        ModelId::LagLlama.repository() == "time-series-foundation-models/Lag-Llama"@,
        ModelId::Moment.repository() == "AutonLab/MOMENT-1-large"@,
        ModelId::Moirai.repository() == "Salesforce/moirai-1.0-R-large"@,
        ModelId::Moirai2.repository() == "Salesforce/moirai-2.0-R-small"@,
        ModelId::FlowState.repository() == "ibm-granite/granite-timeseries-flowstate-r1"@,
        ModelId::Tirex.repository() == "NX-AI/TiRex"@,
        ModelId::Toto.architecture() == "Quantile transformer (Datadog)"@,
        ModelId::Chronos.architecture() == "Tokenised probabilistic transformer (Amazon)"@,
        ModelId::TimesFM.architecture() == "Patch-based decoder (Google)"@,
        ModelId::Sundial.architecture() == "Flow-matching decoder transformer (thuml)"@,
        ModelId::Ttm.architecture() == "Tiny time-mixer (IBM)"@,
        ModelId::LagLlama.architecture() == "Lag-feature LLM decoder"@,
        ModelId::Moment.architecture() == "Masked patch encoder, T5 attention (CMU)"@,
        ModelId::Moirai.architecture() == "Universal forecasting encoder (Salesforce)"@,
        ModelId::Moirai2.architecture() == "Universal forecasting decoder (Salesforce)"@,
        ModelId::FlowState.architecture() == "SSM encoder-decoder with Legendre quantile basis (IBM)"@,
        ModelId::Tirex.architecture() == "Patch-based encoder with RoPE (NX-AI)"@,
        all_models().len() == 11,
        all_models()[0] == ModelId::Toto,
        all_models()[1] == ModelId::Chronos,
        all_models()[2] == ModelId::TimesFM,
        all_models()[3] == ModelId::Sundial,
        all_models()[4] == ModelId::Ttm,
        all_models()[5] == ModelId::LagLlama,
        all_models()[6] == ModelId::Moment,
        all_models()[7] == ModelId::Moirai,
        all_models()[8] == ModelId::Moirai2,
        all_models()[9] == ModelId::FlowState,
        all_models()[10] == ModelId::Tirex,
        forall|m: ModelId| #[trigger] m.wants_config() <==> (m is Toto || m is Chronos || m is FlowState || m is Ttm),
{
}

} // verus!
