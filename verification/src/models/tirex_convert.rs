//! Preparing a TiRex checkpoint for being written.

use vstd::prelude::*;

use crate::checkpoint::cast;
use crate::checkpoint::cast::{Cast, CastError, GGMLType, SrcDtype};
use crate::checkpoint::read::MetaValue;
use crate::checkpoint::recast;
use crate::checkpoint::recast::RecastTensor;
use crate::layout;
use crate::models::tirex::TiRexConfig;

verus! {

/// The gates of a cell.
pub const NUM_GATES: usize = 4;

/// How a checkpoint is converted.
#[derive(Debug, Clone, Copy)]
pub struct ConvertOptions {
    /// The type that the tensors are cast to.
    pub output_dtype: GGMLType,
}

/// A tensor of the checkpoint in single precision, with the name it is written under, if any.
#[derive(Debug)]
pub struct CkptTensor {
    pub name: String,
    pub mapped: Option<String>,
    /// Whether the tensor is a bias whose heads and gates are exchanged.
    pub permute: bool,
    pub shape: Vec<u64>,
    pub vals: Vec<u32>,
}

/// What is written.
#[derive(Debug)]
pub struct Converted {
    pub tensors: Vec<RecastTensor>,
    /// The names of the tensors that are left out.
    pub skipped: Vec<String>,
    /// How many tensors went to single precision in place of blocks.
    pub fallbacks: usize,
}

/// The bias with heads and gates exchanged; what follows it is zero.
pub open spec fn permuted(vals: Seq<u32>, nh: int, ng: int, dh: int) -> Seq<u32> {
    layout::exchanged(vals, nh, ng, dh) + Seq::new((vals.len() - nh * ng * dh) as nat, |i: int| 0u32)
}

/// The bias, stored by heads, gates and units, by gates, heads and units.
pub fn permute_bias(vals: &[u32], nh: usize, ng: usize, dh: usize) -> (r: Vec<u32>)
    requires
        nh * ng * dh <= vals@.len(),
    ensures
        r@ == permuted(vals@, nh as int, ng as int, dh as int),
{
    let mut out: Vec<u32> = layout::exchange(vals, nh, ng, dh);
    proof {
        assert(nh * ng * dh >= 0) by (nonlinear_arith);
    }
    while out.len() < vals.len()
        invariant
            nh * ng * dh <= out@.len() <= vals@.len(),
            nh * ng * dh >= 0,
            forall|q: int|
                0 <= q < out@.len() ==> #[trigger] out@[q] == permuted(vals@, nh as int, ng as int, dh as int)[q],
        decreases vals@.len() - out@.len(),
    {
        out.push(0);
    }
    assert(out@ =~= permuted(vals@, nh as int, ng as int, dh as int));
    out
}

/// Exchanging the dimensions of a bias back gives it back.
pub proof fn law_bias_permutes_back(vals: Seq<u32>, nh: int, ng: int, dh: int)
    requires
        0 <= nh,
        0 <= ng,
        0 <= dh,
        vals.len() == nh * ng * dh,
    ensures
        permuted(permuted(vals, nh, ng, dh), ng, nh, dh) == vals,
{
    assert(ng * nh * dh == nh * ng * dh) by (nonlinear_arith);
    layout::law_exchange_twice(vals, nh, ng, dh);
    assert(permuted(vals, nh, ng, dh) =~= layout::exchanged(vals, nh, ng, dh));
    assert(permuted(permuted(vals, nh, ng, dh), ng, nh, dh) =~= vals);
}

/// The elements that are written.
pub open spec fn written_vals(t: CkptTensor, nh: int, dh: int) -> Seq<u32> {
    if t.permute {
        permuted(t.vals@, nh, NUM_GATES as int, dh)
    } else {
        t.vals@
    }
}

/// The tensor as it is written.
pub open spec fn converted(t: CkptTensor, dtype: GGMLType, nh: int, dh: int, r: RecastTensor) -> bool {
    let data = cast::single_bytes(written_vals(t, nh, dh));
    &&& t.mapped matches Some(name) && r.name@ == name@
    &&& r.shape@ == t.shape@.reverse()
    &&& r.dtype == recast::target(dtype, t.shape@)
    &&& cast::castable(data, SrcDtype::F32, r.dtype)
    &&& cast::cast_to(data, SrcDtype::F32, r.dtype, r.data)
}

/// The tensors that have a name to be written under.
pub open spec fn mapped(tensors: Seq<CkptTensor>) -> Seq<CkptTensor> {
    tensors.filter(|t: CkptTensor| t.mapped is Some)
}

/// The tensors that have none.
pub open spec fn unmapped(tensors: Seq<CkptTensor>) -> Seq<CkptTensor> {
    tensors.filter(|t: CkptTensor| t.mapped is None)
}

/// How many of the first `n` tensors fall back.
pub open spec fn fallbacks(tensors: Seq<CkptTensor>, dtype: GGMLType, n: nat) -> nat
    decreases n,
{
    if n == 0 {
        0
    } else {
        fallbacks(tensors, dtype, (n - 1) as nat) + (if tensors[n - 1].mapped is Some && recast::falls_back(
            dtype,
            tensors[n - 1].shape@,
        ) {
            1nat
        } else {
            0
        })
    }
}

/// Whether every bias that is exchanged has all its units.
pub open spec fn biases_whole(tensors: Seq<CkptTensor>, nh: int, dh: int) -> bool {
    forall|i: int| 0 <= i < tensors.len() && (#[trigger] tensors[i]).permute ==> nh * NUM_GATES * dh
        <= tensors[i].vals@.len()
}

/// Casts one tensor.
fn convert_tensor(t: &CkptTensor, name: &str, dtype: GGMLType, nh: usize, dh: usize) -> (r: Result<
    RecastTensor,
    CastError,
>)
    requires
        t.mapped matches Some(n) && n@ == name@,
        t.permute ==> nh * NUM_GATES * dh <= t.vals@.len(),
    ensures
        match r {
            Ok(out) => converted(*t, dtype, nh as int, dh as int, out),
            Err(e) => !cast::castable(
                cast::single_bytes(written_vals(*t, nh as int, dh as int)),
                SrcDtype::F32,
                recast::target(dtype, t.shape@),
            ) && e == cast::failure(
                cast::single_bytes(written_vals(*t, nh as int, dh as int)),
                SrcDtype::F32,
            ),
        },
{
    let bytes: Vec<u8> = if t.permute {
        let vals: Vec<u32> = permute_bias(t.vals.as_slice(), nh, NUM_GATES, dh);
        cast::f32_to_bytes(vals.as_slice())
    } else {
        cast::f32_to_bytes(t.vals.as_slice())
    };
    let dst: GGMLType = if recast::needs_fallback(dtype, &t.shape) {
        GGMLType::F32
    } else {
        dtype
    };
    let data: Cast = match cast::cast_data(bytes.as_slice(), SrcDtype::F32, dst) {
        Ok(data) => data,
        Err(e) => return Err(e),
    };
    Ok(RecastTensor { name: name.to_string(), shape: recast::reversed(&t.shape), dtype: dst, data })
}

/// Casts the tensors that have a name to be written under, in their order, and lists the others.
pub fn convert(tensors: &Vec<CkptTensor>, config: &TiRexConfig, opts: &ConvertOptions) -> (r: Result<
    Converted,
    CastError,
>)
    requires
        config.num_heads > 0,
        biases_whole(tensors@, config.num_heads as int, (config.embedding_dim / config.num_heads) as int),
    ensures
        ({
            let nh = config.num_heads as int;
            let dh = (config.embedding_dim / config.num_heads) as int;
            match r {
                Ok(out) => {
                    &&& out.tensors@.len() == mapped(tensors@).len()
                    &&& forall|i: int|
                        0 <= i < out.tensors@.len() ==> converted(
                            mapped(tensors@)[i],
                            opts.output_dtype,
                            nh,
                            dh,
                            #[trigger] out.tensors@[i],
                        )
                    &&& out.skipped@.len() == unmapped(tensors@).len()
                    &&& forall|i: int|
                        0 <= i < out.skipped@.len() ==> (#[trigger] out.skipped@[i])@ == unmapped(tensors@)[i].name@
                    &&& out.fallbacks == fallbacks(tensors@, opts.output_dtype, tensors@.len())
                },
                Err(e) => exists|i: int| #[trigger] first_uncastable(mapped(tensors@), opts.output_dtype, nh, dh, i) && e
                    == cast::failure(
                    cast::single_bytes(written_vals(mapped(tensors@)[i], nh, dh)),
                    SrcDtype::F32,
                ),
            }
        }),
{
    let dtype: GGMLType = opts.output_dtype;
    let nh: usize = config.num_heads;
    let dh: usize = config.embedding_dim / config.num_heads;
    let mut out: Vec<RecastTensor> = Vec::new();
    let mut skipped: Vec<String> = Vec::new();
    let mut fallback_count: usize = 0;
    let mut i: usize = 0;
    proof {
        reveal(Seq::filter);
        assert(tensors@.take(0) =~= Seq::empty());
        assert(mapped(tensors@.take(0)) =~= Seq::empty());
        assert(unmapped(tensors@.take(0)) =~= Seq::empty());
    }
    while i < tensors.len()
        invariant
            i <= tensors@.len(),
            dtype == opts.output_dtype,
            nh == config.num_heads,
            dh == config.embedding_dim / config.num_heads,
            biases_whole(tensors@, nh as int, dh as int),
            fallback_count <= i,
            fallback_count == fallbacks(tensors@, dtype, i as nat),
            out@.len() == mapped(tensors@.take(i as int)).len(),
            forall|q: int|
                0 <= q < out@.len() ==> converted(
                    mapped(tensors@.take(i as int))[q],
                    dtype,
                    nh as int,
                    dh as int,
                    #[trigger] out@[q],
                ),
            skipped@.len() == unmapped(tensors@.take(i as int)).len(),
            forall|q: int|
                0 <= q < skipped@.len() ==> (#[trigger] skipped@[q])@ == unmapped(tensors@.take(i as int))[q].name@,
        decreases tensors@.len() - i,
    {
        let ghost upto = tensors@.take(i as int);
        let ghost next = tensors@.take(i + 1);
        let t = &tensors[i];
        proof {
            assert(next.drop_last() =~= upto);
            assert(next.last() == *t);
            reveal(Seq::filter);
        }
        match &t.mapped {
            None => {
                assert(mapped(next) =~= mapped(upto));
                assert(unmapped(next) =~= unmapped(upto).push(*t));
                skipped.push(t.name.as_str().to_string());
            },
            Some(name) => {
                assert(mapped(next) =~= mapped(upto).push(*t));
                assert(unmapped(next) =~= unmapped(upto));
                if recast::needs_fallback(dtype, &t.shape) {
                    fallback_count += 1;
                }
                match convert_tensor(t, name.as_str(), dtype, nh, dh) {
                    Ok(made) => out.push(made),
                    Err(e) => {
                        proof {
                            lemma_filter_prefix(tensors@, (i + 1) as int);
                            let all = mapped(tensors@);
                            let k = mapped(upto).len() as int;
                            assert(all[k] == *t);
                            assert forall|q: int| 0 <= q < k implies fits(#[trigger] all[q], dtype, nh as int, dh as int) by {
                                assert(all[q] == mapped(upto)[q]);
                                assert(converted(mapped(upto)[q], dtype, nh as int, dh as int, out@[q]));
                            }
                            assert(first_uncastable(all, dtype, nh as int, dh as int, k));
                        }
                        return Err(e);
                    },
                }
            },
        }
        i += 1;
    }
    assert(tensors@.take(i as int) =~= tensors@);
    Ok(Converted { tensors: out, skipped, fallbacks: fallback_count })
}

proof fn lemma_filter_prefix(tensors: Seq<CkptTensor>, n: int)
    requires
        0 <= n <= tensors.len(),
    ensures
        mapped(tensors.take(n)).len() <= mapped(tensors).len(),
        forall|q: int| 0 <= q < mapped(tensors.take(n)).len() ==> mapped(tensors.take(n))[q] == #[trigger] mapped(
            tensors,
        )[q],
    decreases tensors.len(),
{
    reveal(Seq::filter);
    if n < tensors.len() {
        lemma_filter_prefix(tensors.drop_last(), n);
        assert(tensors.drop_last().take(n) =~= tensors.take(n));
    } else {
        assert(tensors.take(n) =~= tensors);
    }
}

/// Whether a tensor can be cast.
pub open spec fn fits(t: CkptTensor, dtype: GGMLType, nh: int, dh: int) -> bool {
    cast::castable(
        cast::single_bytes(written_vals(t, nh, dh)),
        SrcDtype::F32,
        recast::target(dtype, t.shape@),
    )
}

/// Tensor `i` is the first that cannot be cast.
pub open spec fn first_uncastable(tensors: Seq<CkptTensor>, dtype: GGMLType, nh: int, dh: int, i: int) -> bool {
    &&& 0 <= i < tensors.len()
    &&& !fits(tensors[i], dtype, nh, dh)
    &&& forall|q: int| 0 <= q < i ==> fits(#[trigger] tensors[q], dtype, nh, dh)
}

/// The numbers of a configuration that are written, with their keys.
pub open spec fn numbers(c: TiRexConfig) -> Seq<(Seq<char>, usize)> {
    seq![
        ("tirex.patch_size"@, c.patch_size),
        ("tirex.num_blocks"@, c.num_blocks),
        ("tirex.embedding_dim"@, c.embedding_dim),
        ("tirex.num_heads"@, c.num_heads),
        ("tirex.input_ff_dim"@, c.input_ff_dim),
        ("tirex.ffn_up_dim"@, c.ffn_up_dim),
        ("tirex.train_ctx_len"@, c.train_ctx_len),
        ("tirex.num_quantiles"@, c.num_quantiles),
    ]
}

/// Whether an entry holds a number under a key, cut to 32 bits.
pub open spec fn number_entry(e: (String, MetaValue), key: Seq<char>, n: usize) -> bool {
    e.0@ == key && e.1 == MetaValue::Uint32((n as int % 0x1_0000_0000) as u32)
}

/// Whether an entry holds a text under a key.
pub open spec fn text_entry(e: (String, MetaValue), key: Seq<char>, s: Seq<char>) -> bool {
    e.0@ == key && (e.1 matches MetaValue::Text(t) && t@ == s)
}

fn number_of(key: &str, n: usize) -> (r: (String, MetaValue))
    ensures
        number_entry(r, key@, n),
{
    (key.to_string(), MetaValue::Uint32((n as u64 % 0x1_0000_0000) as u32))
}

/// The metadata of a configuration.
pub fn metadata(config: &TiRexConfig) -> (r: Vec<(String, MetaValue)>)
    ensures
        r@.len() == 10,
        text_entry(r@[0], "general.architecture"@, "tirex"@),
        text_entry(r@[1], "general.name"@, "TiRex"@),
        forall|i: int|
            0 <= i < 8 ==> number_entry(r@[i + 2], (#[trigger] numbers(*config)[i]).0, numbers(*config)[i].1),
{
    let mut out: Vec<(String, MetaValue)> = Vec::new();
    out.push(("general.architecture".to_string(), MetaValue::Text("tirex".to_string())));
    out.push(("general.name".to_string(), MetaValue::Text("TiRex".to_string())));
    out.push(number_of("tirex.patch_size", config.patch_size));
    out.push(number_of("tirex.num_blocks", config.num_blocks));
    out.push(number_of("tirex.embedding_dim", config.embedding_dim));
    out.push(number_of("tirex.num_heads", config.num_heads));
    out.push(number_of("tirex.input_ff_dim", config.input_ff_dim));
    out.push(number_of("tirex.ffn_up_dim", config.ffn_up_dim));
    out.push(number_of("tirex.train_ctx_len", config.train_ctx_len));
    out.push(number_of("tirex.num_quantiles", config.num_quantiles));
    out
}

/// A bias that is permuted holds gate after gate what it held head after head, and is zero behind it.
pub proof fn law_gates_come_first(t: CkptTensor, nh: int, dh: int, h: int, g: int, d: int)
    requires
        t.permute,
        0 <= h < nh,
        0 <= g < 4,
        0 <= d < dh,
        nh * 4 * dh <= t.vals@.len(),
    ensures
        written_vals(t, nh, dh).len() == t.vals@.len(),
        written_vals(t, nh, dh)[(g * nh + h) * dh + d] == t.vals@[(h * 4 + g) * dh + d],
        forall|q: int| nh * 4 * dh <= q < t.vals@.len() ==> #[trigger] written_vals(t, nh, dh)[q] == 0,
{
    layout::law_exchange_moves(t.vals@, nh, 4, dh, h, g, d);
    layout::lemma_at3_bound(g, h, d, 4, nh, dh);
    assert(4 * nh * dh == nh * 4 * dh) by (nonlinear_arith);
}

/// A tensor that is not permuted is written as it is.
pub proof fn law_others_are_kept(t: CkptTensor, nh: int, dh: int)
    requires
        !t.permute,
    ensures
        written_vals(t, nh, dh) == t.vals@,
{
}

/// What the configuration is written as.
pub proof fn law_configuration_keys(c: TiRexConfig)
    ensures
        numbers(c).len() == 8,
        numbers(c)[0] == ("tirex.patch_size"@, c.patch_size),
        numbers(c)[1] == ("tirex.num_blocks"@, c.num_blocks),
        numbers(c)[2] == ("tirex.embedding_dim"@, c.embedding_dim),
        numbers(c)[3] == ("tirex.num_heads"@, c.num_heads),
        numbers(c)[4] == ("tirex.input_ff_dim"@, c.input_ff_dim),
        numbers(c)[5] == ("tirex.ffn_up_dim"@, c.ffn_up_dim),
        numbers(c)[6] == ("tirex.train_ctx_len"@, c.train_ctx_len),
        numbers(c)[7] == ("tirex.num_quantiles"@, c.num_quantiles),
{
}

/// A tensor with a name is converted and one without is skipped; both keep their order.
pub proof fn law_named_are_converted(tensors: Seq<CkptTensor>, t: CkptTensor)
    ensures
        mapped(Seq::empty()) == Seq::<CkptTensor>::empty(),
        unmapped(Seq::empty()) == Seq::<CkptTensor>::empty(),
        t.mapped is Some ==> mapped(tensors.push(t)) == mapped(tensors).push(t) && unmapped(tensors.push(t)) == unmapped(
            tensors,
        ),
        t.mapped is None ==> mapped(tensors.push(t)) == mapped(tensors) && unmapped(tensors.push(t)) == unmapped(
            tensors,
        ).push(t),
{
    reveal(Seq::filter);
    assert(tensors.push(t).drop_last() =~= tensors);
    assert(mapped(Seq::empty()) =~= Seq::<CkptTensor>::empty());
    assert(unmapped(Seq::empty()) =~= Seq::<CkptTensor>::empty());
}

/// A converted tensor has its mapped name and its dimensions turned round.
pub proof fn law_converted_tensors(t: CkptTensor, dtype: GGMLType, nh: int, dh: int, r: RecastTensor, i: int)
    requires
        converted(t, dtype, nh, dh, r),
    ensures
        t.mapped is Some && r.name@ == t.mapped->0@,
        r.shape@.len() == t.shape@.len(),
        0 <= i < t.shape@.len() ==> r.shape@[i] == t.shape@[t.shape@.len() - 1 - i],
        r.dtype == recast::target(dtype, t.shape@),
{
}

/// Entries of the configuration hold their numbers and texts.
pub proof fn law_entries_hold(e: (String, MetaValue), key: Seq<char>, n: usize, s: Seq<char>)
    ensures
        number_entry(e, key, n) && n < 0x1_0000_0000 ==> e.0@ == key && e.1 is Uint32 && e.1->Uint32_0 == n,
        text_entry(e, key, s) ==> e.0@ == key && e.1 is Text && e.1->Text_0@ == s,
{
}

} // verus!
