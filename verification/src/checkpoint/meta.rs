//! Metadata of GGUF files.

use vstd::prelude::*;

use crate::checkpoint::read::MetaValue;

verus! {

/// A metadata value as a GGUF file stores it. Numbers with a fraction are held as their bits.
#[derive(Debug)]
pub enum GgufValue {
    U8(u8),
    I8(i8),
    U16(u16),
    I16(i16),
    U32(u32),
    I32(i32),
    U64(u64),
    I64(i64),
    F32(u32),
    F64(u64),
    Bool(bool),
    Text(String),
    Array(Vec<GgufValue>),
}

/// The values of an array that holds nothing but whole numbers of 32 bits.
pub open spec fn all_u32(items: Seq<GgufValue>, vals: Seq<u32>) -> bool {
    items.len() == vals.len() && forall|i: int| 0 <= i < items.len() ==> #[trigger] items[i] == GgufValue::U32(vals[i])
}

/// The values of an array that holds nothing but singles.
pub open spec fn all_single(items: Seq<GgufValue>, vals: Seq<u32>) -> bool {
    items.len() == vals.len() && forall|i: int| 0 <= i < items.len() ==> #[trigger] items[i] == GgufValue::F32(vals[i])
}

/// The values of an array that holds nothing but texts.
pub open spec fn all_text(items: Seq<GgufValue>, vals: Seq<String>) -> bool {
    items.len() == vals.len() && forall|i: int|
        0 <= i < items.len() ==> ((#[trigger] items[i]) matches GgufValue::Text(s) && s@ == vals[i]@)
}

/// Whether all items of an array are of one type that is carried over.
pub open spec fn uniform(items: Seq<GgufValue>) -> bool {
    ||| forall|i: int| 0 <= i < items.len() ==> (#[trigger] items[i]) is U32
    ||| forall|i: int| 0 <= i < items.len() ==> (#[trigger] items[i]) is F32
    ||| forall|i: int| 0 <= i < items.len() ==> (#[trigger] items[i]) is Text
}

/// Whether the value is carried over as the other. An empty array is one of whole numbers.
pub open spec fn carried(v: GgufValue, m: MetaValue) -> bool {
    match v {
        GgufValue::U8(x) => m == MetaValue::Uint8(x),
        GgufValue::I8(x) => m == MetaValue::Int8(x),
        GgufValue::U16(x) => m == MetaValue::Uint16(x),
        GgufValue::I16(x) => m == MetaValue::Int16(x),
        GgufValue::U32(x) => m == MetaValue::Uint32(x),
        GgufValue::I32(x) => m == MetaValue::Int32(x),
        GgufValue::U64(x) => m == MetaValue::Uint64(x),
        GgufValue::I64(x) => m == MetaValue::Int64(x),
        GgufValue::F32(x) => m == MetaValue::Float32(x),
        GgufValue::F64(x) => m == MetaValue::Float64(x),
        GgufValue::Bool(x) => m == MetaValue::Bool(x),
        GgufValue::Text(x) => m matches MetaValue::Text(s) && s@ == x@,
        GgufValue::Array(items) => match m {
            MetaValue::ArrayUint32(vals) => all_u32(items@, vals@),
            MetaValue::ArrayFloat32(vals) => items@.len() > 0 && all_single(items@, vals@),
            MetaValue::ArrayText(vals) => items@.len() > 0 && all_text(items@, vals@),
            _ => false,
        },
    }
}

/// The items, if all are whole numbers of 32 bits.
fn u32_items(items: &Vec<GgufValue>) -> (r: Option<Vec<u32>>)
    ensures
        match r {
            Some(vals) => all_u32(items@, vals@),
            None => exists|i: int| 0 <= i < items@.len() && !((#[trigger] items@[i]) is U32),
        },
{
    let mut out: Vec<u32> = Vec::new();
    let mut i: usize = 0;
    while i < items.len()
        invariant
            i <= items@.len(),
            out@.len() == i,
            forall|q: int| 0 <= q < i ==> #[trigger] items@[q] == GgufValue::U32(out@[q]),
        decreases items@.len() - i,
    {
        match &items[i] {
            GgufValue::U32(x) => out.push(*x),
            _ => {
                assert(!(items@[i as int] is U32));
                return None;
            },
        }
        i += 1;
    }
    Some(out)
}

/// The items, if all are singles.
fn single_items(items: &Vec<GgufValue>) -> (r: Option<Vec<u32>>)
    ensures
        match r {
            Some(vals) => all_single(items@, vals@),
            None => exists|i: int| 0 <= i < items@.len() && !((#[trigger] items@[i]) is F32),
        },
{
    let mut out: Vec<u32> = Vec::new();
    let mut i: usize = 0;
    while i < items.len()
        invariant
            i <= items@.len(),
            out@.len() == i,
            forall|q: int| 0 <= q < i ==> #[trigger] items@[q] == GgufValue::F32(out@[q]),
        decreases items@.len() - i,
    {
        match &items[i] {
            GgufValue::F32(x) => out.push(*x),
            _ => {
                assert(!(items@[i as int] is F32));
                return None;
            },
        }
        i += 1;
    }
    Some(out)
}

/// The items, if all are texts.
fn text_items(items: &Vec<GgufValue>) -> (r: Option<Vec<String>>)
    ensures
        match r {
            Some(vals) => all_text(items@, vals@),
            None => exists|i: int| 0 <= i < items@.len() && !((#[trigger] items@[i]) is Text),
        },
{
    let mut out: Vec<String> = Vec::new();
    let mut i: usize = 0;
    while i < items.len()
        invariant
            i <= items@.len(),
            out@.len() == i,
            forall|q: int|
                0 <= q < i ==> ((#[trigger] items@[q]) matches GgufValue::Text(s) && s@ == out@[q]@),
        decreases items@.len() - i,
    {
        match &items[i] {
            GgufValue::Text(x) => out.push(x.as_str().to_string()),
            _ => {
                assert(!(items@[i as int] is Text));
                return None;
            },
        }
        i += 1;
    }
    Some(out)
}

/// The metadata value of one that a file stores; there is none for an array of mixed items or of a
/// type that is not carried over.
pub fn gguf_value_to_meta(v: &GgufValue) -> (r: Option<MetaValue>)
    ensures
        match r {
            Some(m) => carried(*v, m),
            None => v matches GgufValue::Array(items) && !uniform(items@),
        },
{
    match v {
        GgufValue::U8(x) => Some(MetaValue::Uint8(*x)),
        GgufValue::I8(x) => Some(MetaValue::Int8(*x)),
        GgufValue::U16(x) => Some(MetaValue::Uint16(*x)),
        GgufValue::I16(x) => Some(MetaValue::Int16(*x)),
        GgufValue::U32(x) => Some(MetaValue::Uint32(*x)),
        GgufValue::I32(x) => Some(MetaValue::Int32(*x)),
        GgufValue::U64(x) => Some(MetaValue::Uint64(*x)),
        GgufValue::I64(x) => Some(MetaValue::Int64(*x)),
        GgufValue::F32(x) => Some(MetaValue::Float32(*x)),
        GgufValue::F64(x) => Some(MetaValue::Float64(*x)),
        GgufValue::Bool(x) => Some(MetaValue::Bool(*x)),
        GgufValue::Text(x) => Some(MetaValue::Text(x.as_str().to_string())),
        GgufValue::Array(items) => {
            if let Some(vals) = u32_items(items) {
                return Some(MetaValue::ArrayUint32(vals));
            }
            if let Some(vals) = single_items(items) {
                return Some(MetaValue::ArrayFloat32(vals));
            }
            if let Some(vals) = text_items(items) {
                return Some(MetaValue::ArrayText(vals));
            }
            None
        },
    }
}

/// A value keeps its type and what it holds.
pub proof fn law_values_keep_their_types(m: MetaValue, a: u8, b: i8, c: u16, d: i16, e: u32, f: i32, g: u64, h: i64, k: bool)
    ensures
        carried(GgufValue::U8(a), m) <==> m == MetaValue::Uint8(a),
        carried(GgufValue::I8(b), m) <==> m == MetaValue::Int8(b),
        carried(GgufValue::U16(c), m) <==> m == MetaValue::Uint16(c),
        carried(GgufValue::I16(d), m) <==> m == MetaValue::Int16(d),
        carried(GgufValue::U32(e), m) <==> m == MetaValue::Uint32(e),
        carried(GgufValue::I32(f), m) <==> m == MetaValue::Int32(f),
        carried(GgufValue::U64(g), m) <==> m == MetaValue::Uint64(g),
        carried(GgufValue::I64(h), m) <==> m == MetaValue::Int64(h),
        carried(GgufValue::F32(e), m) <==> m == MetaValue::Float32(e),
        carried(GgufValue::F64(g), m) <==> m == MetaValue::Float64(g),
        carried(GgufValue::Bool(k), m) <==> m == MetaValue::Bool(k),
{
}

/// An array keeps its items in order, whole numbers as such, singles as such and texts as such.
pub proof fn law_arrays_keep_their_items(items: Vec<GgufValue>, m: MetaValue, i: int)
    requires
        carried(GgufValue::Array(items), m),
        0 <= i < items@.len(),
    ensures
        match m {
            MetaValue::ArrayUint32(v) => v@.len() == items@.len() && items@[i] == GgufValue::U32(v@[i]),
            MetaValue::ArrayFloat32(v) => v@.len() == items@.len() && items@[i] == GgufValue::F32(v@[i]),
            MetaValue::ArrayText(v) => v@.len() == items@.len() && (items@[i] matches GgufValue::Text(s) && s@ == v@[i]@),
            _ => false,
        },
{
}

/// Items of two types are not uniform, and items of one of the carried types are.
pub proof fn law_uniform_items(items: Seq<GgufValue>, i: int, j: int)
    requires
        0 <= i < items.len(),
        0 <= j < items.len(),
    ensures
        items[i] is U32 && !(items[j] is U32) ==> !uniform(items),
        items[i] is F32 && !(items[j] is F32) ==> !uniform(items),
        items[i] is Text && !(items[j] is Text) ==> !uniform(items),
        !(items[i] is U32 || items[i] is F32 || items[i] is Text) ==> !uniform(items),
        uniform(Seq::empty()),
        uniform(seq![items[i], items[i]]) <==> items[i] is U32 || items[i] is F32 || items[i] is Text,
{
    let two = seq![items[i], items[i]];
    if uniform(two) {
        assert(two[0] == items[i]);
    }
}

/// An array without items is kept as one of whole numbers.
pub proof fn law_empty_arrays(items: Vec<GgufValue>, m: MetaValue)
    requires
        items@.len() == 0,
        carried(GgufValue::Array(items), m),
    ensures
        m is ArrayUint32 && m->ArrayUint32_0@.len() == 0,
{
}

} // verus!
