//! Rewriting a checkpoint in another number format.
//!
//! Every tensor is cast to the target; the stored shape is the reverse of the row-major one. A
//! tensor that does not fill blocks of 32 elements goes to single precision in place of blocks.

use vstd::prelude::*;

use crate::checkpoint::cast;
use crate::checkpoint::cast::{Cast, CastError, GGMLType};
use crate::checkpoint::elements::{RawTensor, RawView};

verus! {

/// A tensor that is ready to be written, but for the scaling of blocks.
#[derive(Debug)]
pub struct RecastTensor {
    pub name: String,
    /// The shape, the innermost dimension first.
    pub shape: Vec<u64>,
    pub dtype: GGMLType,
    pub data: Cast,
}

/// A checkpoint that is ready to be written.
#[derive(Debug)]
pub struct Recast {
    pub tensors: Vec<RecastTensor>,
    /// How many tensors went to single precision in place of blocks.
    pub fallbacks: usize,
}

/// Why a checkpoint cannot be rewritten.
#[derive(Debug)]
pub enum RecastError {
    NoTensors,
    CastFailed { name: String, error: CastError },
}

impl RecastError {
    /// The error of the checkpoint at a path, in words.
    pub open spec fn text(&self, path: Seq<char>) -> Seq<char> {
        match self {
            RecastError::NoTensors => "checkpoint "@ + path + " contains no tensors"@,
            RecastError::CastFailed { name, error } => "tensor "@ + name@ + ": cast failed: "@ + error.text(),
        }
    }

    /// The error of the checkpoint at a path, in words.
    pub fn message(&self, path: &str) -> (r: String)
        ensures
            r@ == self.text(path@),
    {
        match self {
            RecastError::NoTensors => {
                let mut out: String = "checkpoint ".to_string();
                out.append(path);
                out.append(" contains no tensors");
                out
            },
            RecastError::CastFailed { name, error } => {
                let mut out: String = "tensor ".to_string();
                out.append(name.as_str());
                out.append(": cast failed: ");
                let rest: String = error.message();
                out.append(rest.as_str());
                out
            },
        }
    }
}

/// The number of elements.
pub open spec fn product(shape: Seq<u64>) -> nat
    decreases shape.len(),
{
    if shape.len() == 0 {
        1
    } else {
        product(shape.drop_last()) * shape.last() as nat
    }
}

/// The innermost dimension.
pub open spec fn innermost(shape: Seq<u64>) -> u64 {
    if shape.len() == 0 {
        1
    } else {
        shape.last()
    }
}

/// Whether a tensor does not fill the blocks that it should go to.
pub open spec fn falls_back(dtype: GGMLType, shape: Seq<u64>) -> bool {
    dtype == GGMLType::Q8_0 && (innermost(shape) % 32 != 0 || product(shape) % 32 != 0)
}

/// The format that a tensor goes to.
pub open spec fn target(dtype: GGMLType, shape: Seq<u64>) -> GGMLType {
    if falls_back(dtype, shape) {
        GGMLType::F32
    } else {
        dtype
    }
}

/// How many of the first `n` tensors fall back.
pub open spec fn fallbacks(shapes: Seq<RawTensor>, dtype: GGMLType, n: nat) -> nat
    decreases n,
{
    if n == 0 {
        0
    } else {
        fallbacks(shapes, dtype, (n - 1) as nat) + (if falls_back(dtype, shapes[n - 1].shape@) {
            1nat
        } else {
            0
        })
    }
}

/// The tensor as it is written.
pub open spec fn recast_of(t: RawView, dtype: GGMLType, r: RecastTensor) -> bool {
    &&& r.name@ == t.name
    &&& r.shape@ == t.shape.reverse()
    &&& r.dtype == target(dtype, t.shape)
    &&& cast::castable(t.data, t.dtype, r.dtype)
    &&& cast::cast_to(t.data, t.dtype, r.dtype, r.data)
}

/// The last dimension divides the number of elements.
proof fn lemma_innermost_divides(shape: Seq<u64>)
    ensures
        shape.len() > 0 && shape.last() % 32 == 0 ==> product(shape) % 32 == 0,
{
    if shape.len() > 0 && shape.last() % 32 == 0 {
        let p = product(shape.drop_last()) as int;
        let l = shape.last() as int;
        assert((p * l) % 32 == 0) by (nonlinear_arith)
            requires
                l % 32 == 0,
        {
            assert(p * l == (p * (l / 32)) * 32);
        }
    }
}

/// Whether a tensor does not fill the blocks that it should go to.
pub fn needs_fallback(dtype: GGMLType, shape: &Vec<u64>) -> (r: bool)
    ensures
        r == falls_back(dtype, shape@),
{
    match dtype {
        GGMLType::Q8_0 => {
            if shape.len() == 0 {
                return true;
            }
            proof {
                lemma_innermost_divides(shape@);
            }
            shape[shape.len() - 1] % 32 != 0
        },
        _ => false,
    }
}

/// The shape, the innermost dimension first.
pub fn reversed(shape: &Vec<u64>) -> (r: Vec<u64>)
    ensures
        r@ == shape@.reverse(),
{
    let n: usize = shape.len();
    let mut out: Vec<u64> = Vec::new();
    let mut i: usize = 0;
    while i < n
        invariant
            i <= n == shape@.len(),
            out@.len() == i,
            forall|q: int| 0 <= q < i ==> #[trigger] out@[q] == shape@[n - 1 - q],
        decreases n - i,
    {
        out.push(shape[n - 1 - i]);
        i += 1;
    }
    assert(out@ =~= shape@.reverse());
    out
}

/// Casts one tensor.
pub fn recast_tensor(t: &RawTensor, dtype: GGMLType) -> (r: Result<RecastTensor, RecastError>)
    ensures
        match r {
            Ok(out) => recast_of(t@, dtype, out),
            Err(RecastError::CastFailed { name, error }) => name@ == t@.name && !cast::castable(
                t@.data,
                t@.dtype,
                target(dtype, t@.shape),
            ) && error == cast::failure(t@.data, t@.dtype),
            Err(RecastError::NoTensors) => false,
        },
{
    let dst: GGMLType = if needs_fallback(dtype, &t.shape) {
        GGMLType::F32
    } else {
        dtype
    };
    match cast::cast_data(t.data.as_slice(), t.dtype, dst) {
        Ok(data) => Ok(
            RecastTensor { name: t.name.as_str().to_string(), shape: reversed(&t.shape), dtype: dst, data },
        ),
        Err(error) => Err(RecastError::CastFailed { name: t.name.as_str().to_string(), error }),
    }
}

/// Casts all tensors, in their order. The first that cannot be cast is what is wrong.
pub fn recast(tensors: &Vec<RawTensor>, dtype: GGMLType) -> (r: Result<Recast, RecastError>)
    ensures
        match r {
            Ok(out) => tensors@.len() > 0 && out.tensors@.len() == tensors@.len() && (forall|i: int|
                0 <= i < tensors@.len() ==> recast_of((#[trigger] tensors@[i])@, dtype, out.tensors@[i]))
                && out.fallbacks == fallbacks(tensors@, dtype, tensors@.len()),
            Err(RecastError::NoTensors) => tensors@.len() == 0,
            Err(RecastError::CastFailed { name, error }) => exists|i: int|
                #[trigger] first_uncastable(tensors@, dtype, i) && name@ == tensors@[i]@.name && error
                    == cast::failure(tensors@[i]@.data, tensors@[i]@.dtype),
        },
{
    if tensors.len() == 0 {
        return Err(RecastError::NoTensors);
    }
    let mut out: Vec<RecastTensor> = Vec::new();
    let mut fallback_count: usize = 0;
    let mut i: usize = 0;
    while i < tensors.len()
        invariant
            i <= tensors@.len(),
            out@.len() == i,
            fallback_count <= i,
            fallback_count == fallbacks(tensors@, dtype, i as nat),
            forall|q: int| 0 <= q < i ==> recast_of((#[trigger] tensors@[q])@, dtype, out@[q]),
        decreases tensors@.len() - i,
    {
        if needs_fallback(dtype, &tensors[i].shape) {
            fallback_count += 1;
        }
        match recast_tensor(&tensors[i], dtype) {
            Ok(t) => {
                out.push(t);
            },
            Err(e) => {
                assert(first_uncastable(tensors@, dtype, i as int));
                return Err(e);
            },
        }
        i += 1;
    }
    Ok(Recast { tensors: out, fallbacks: fallback_count })
}

/// Tensor `i` is the first that cannot be cast.
pub open spec fn first_uncastable(tensors: Seq<RawTensor>, dtype: GGMLType, i: int) -> bool {
    &&& 0 <= i < tensors.len()
    &&& !cast::castable(tensors[i]@.data, tensors[i]@.dtype, target(dtype, tensors[i]@.shape))
    &&& forall|q: int|
        0 <= q < i ==> cast::castable(
            (#[trigger] tensors[q])@.data,
            tensors[q]@.dtype,
            target(dtype, tensors[q]@.shape),
        )
}

/// The bytes of a shape's elements in a format.
pub open spec fn full_data(t: RawView) -> bool {
    t.data.len() == product(t.shape) * t.dtype.width()
}

/// Whatever the target, a tensor that has all of its elements can be cast: what does not fill blocks
/// does not go to blocks.
pub proof fn law_full_tensors_cast(t: RawView, dtype: GGMLType)
    requires
        full_data(t),
    ensures
        cast::castable(t.data, t.dtype, target(dtype, t.shape)),
{
    let n = product(t.shape) as int;
    let w = t.dtype.width() as int;
    vstd::arithmetic::div_mod::lemma_mod_multiples_basic(n, w);
    vstd::arithmetic::div_mod::lemma_div_by_multiple(n, w);
}

/// Only quantized blocks fall back to singles, and only where the innermost axis is not made up of
/// whole blocks.
pub proof fn law_only_whole_rows_are_quantized(dtype: GGMLType, shape: Seq<u64>)
    ensures
        dtype != GGMLType::Q8_0 ==> target(dtype, shape) == dtype,
        dtype == GGMLType::Q8_0 && shape.len() == 0 ==> target(dtype, shape) == GGMLType::F32,
        dtype == GGMLType::Q8_0 && shape.len() > 0 && shape[shape.len() - 1] % 32 != 0 ==> target(dtype, shape)
            == GGMLType::F32,
        dtype == GGMLType::Q8_0 && shape.len() > 0 && shape[shape.len() - 1] % 32 == 0 ==> target(dtype, shape)
            == GGMLType::Q8_0,
        falls_back(dtype, shape) <==> target(dtype, shape) != dtype,
{
    if shape.len() > 0 && shape.last() % 32 == 0 {
        let p = product(shape.drop_last());
        let q = (shape.last() / 32) as nat;
        assert(p * shape.last() == 32 * (p * q)) by (nonlinear_arith)
            requires
                shape.last() == 32 * q,
        ;
    }
}

/// The number of elements of a shape is the product of its axes.
pub proof fn law_elements_of_a_shape(shape: Seq<u64>, axis: u64)
    ensures
        product(Seq::empty()) == 1,
        product(shape.push(axis)) == product(shape) * axis,
{
    assert(shape.push(axis).drop_last() =~= shape);
}

/// A tensor keeps its name, and has its axes in the opposite order.
pub proof fn law_recast_keeps_names_and_turns_shapes(t: RawView, dtype: GGMLType, r: RecastTensor, i: int)
    requires
        recast_of(t, dtype, r),
        0 <= i < t.shape.len(),
    ensures
        r.name@ == t.name,
        r.shape@.len() == t.shape.len(),
        r.shape@[i] == t.shape[t.shape.len() - 1 - i],
        r.dtype == target(dtype, t.shape),
{
}

proof fn lemma_fallbacks_of_first(a: Seq<RawTensor>, b: Seq<RawTensor>, dtype: GGMLType, n: nat)
    requires
        n <= a.len(),
        n <= b.len(),
        forall|i: int| 0 <= i < n ==> a[i] == b[i],
    ensures
        fallbacks(a, dtype, n) == fallbacks(b, dtype, n),
    decreases n,
{
    if n > 0 {
        lemma_fallbacks_of_first(a, b, dtype, (n - 1) as nat);
    }
}

/// The tensors that fall back are counted: none of none, and one more for each that does.
pub proof fn law_fallbacks_are_counted(tensors: Seq<RawTensor>, t: RawTensor, dtype: GGMLType)
    ensures
        fallbacks(Seq::empty(), dtype, 0) == 0,
        falls_back(dtype, t.shape@) ==> fallbacks(tensors.push(t), dtype, tensors.len() + 1) == fallbacks(
            tensors,
            dtype,
            tensors.len(),
        ) + 1,
        !falls_back(dtype, t.shape@) ==> fallbacks(tensors.push(t), dtype, tensors.len() + 1) == fallbacks(
            tensors,
            dtype,
            tensors.len(),
        ),
{
    lemma_fallbacks_of_first(tensors, tensors.push(t), dtype, tensors.len());
}

/// How errors are worded.
pub proof fn law_errors_are_worded(name: String, error: cast::CastError, path: Seq<char>)
    ensures
        RecastError::NoTensors.text(path) == "checkpoint "@ + path + " contains no tensors"@,
        (RecastError::CastFailed { name, error }).text(path) == "tensor "@ + name@ + ": cast failed: "@ + error.text(),
{
}

} // verus!
