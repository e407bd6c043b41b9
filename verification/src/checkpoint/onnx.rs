//! The weights of an ONNX model: the initializer tensors of its graph.
//!
//! A model holds graphs, a graph holds initializers, and an initializer holds its elements as raw
//! bytes or in a field for their type. Single, half and bfloat elements keep their bytes; all
//! others are carried over to single precision.

use vstd::prelude::*;

use crate::checkpoint::cast;
use crate::checkpoint::cast::SrcDtype;
use crate::checkpoint::elements;
use crate::checkpoint::elements::{RawTensor, RawView, Stored};
use crate::checkpoint::num;
use crate::checkpoint::proto;
use crate::checkpoint::proto::{Field, ProtoError, ProtoReader, Read, Value};
use crate::text;

verus! {

/// An initializer as the model stores it.
#[derive(Debug)]
pub struct TensorProto {
    pub dims: Vec<i64>,
    pub data_type: i32,
    pub float_data: Vec<u32>,
    pub int32_data: Vec<i32>,
    pub int64_data: Vec<i64>,
    pub uint64_data: Vec<u64>,
    pub double_data: Vec<u64>,
    pub name: String,
    pub raw_data: Vec<u8>,
    pub data_location: u64,
}

/// What an initializer holds.
pub struct TensorFields {
    pub dims: Seq<i64>,
    pub data_type: i32,
    pub float_data: Seq<u32>,
    pub int32_data: Seq<i32>,
    pub int64_data: Seq<i64>,
    pub uint64_data: Seq<u64>,
    pub double_data: Seq<u64>,
    pub name: Seq<char>,
    pub raw_data: Seq<u8>,
    pub data_location: u64,
}

impl View for TensorProto {
    type V = TensorFields;

    open spec fn view(&self) -> TensorFields {
        TensorFields {
            dims: self.dims@,
            data_type: self.data_type,
            float_data: self.float_data@,
            int32_data: self.int32_data@,
            int64_data: self.int64_data@,
            uint64_data: self.uint64_data@,
            double_data: self.double_data@,
            name: self.name@,
            raw_data: self.raw_data@,
            data_location: self.data_location,
        }
    }
}

/// Why a model's weights cannot be had.
#[derive(Debug)]
pub enum OnnxError {
    /// The bytes are no model.
    Malformed(ProtoError),
    /// The graph has no initializers.
    NoInitializers,
    /// The elements lie in another file.
    ExternalData { name: String },
    /// The elements are of a type that is not read.
    UnsupportedType { name: String, data_type: i32 },
}

impl OnnxError {
    /// The error in words.
    pub open spec fn text(&self) -> Seq<char> {
        match self {
            OnnxError::Malformed(e) => "parse ONNX protobuf: "@ + e.text(),
            OnnxError::NoInitializers =>
                "ONNX graph has no initializer tensors — the weights may live in external data files or be supplied as runtime inputs"@,
            OnnxError::ExternalData { name } => "tensor "@ + name@
                + ": stored as external data — re-export the model with weights embedded (onnx.external_data_helper.load_external_data_for_model + save) and convert again"@,
            OnnxError::UnsupportedType { name, data_type } => "tensor "@ + name@ + ": ONNX data_type "@ + text::integer(
                *data_type as int,
            ) + " not supported"@,
        }
    }

    /// The error in words.
    pub fn message(&self) -> (r: String)
        ensures
            r@ == self.text(),
    {
        match self {
            OnnxError::Malformed(e) => {
                let rest: String = e.message();
                text::join2("parse ONNX protobuf: ", rest.as_str())
            },
            OnnxError::NoInitializers =>
                "ONNX graph has no initializer tensors — the weights may live in external data files or be supplied as runtime inputs".to_string(),
            OnnxError::ExternalData { name } => {
                let mut s: String = text::join2("tensor ", name.as_str());
                s.append(
                    ": stored as external data — re-export the model with weights embedded (onnx.external_data_helper.load_external_data_for_model + save) and convert again",
                );
                s
            },
            OnnxError::UnsupportedType { name, data_type } => {
                let mut s: String = text::join2("tensor ", name.as_str());
                s.append(": ONNX data_type ");
                text::push_integer(&mut s, *data_type as i64);
                s.append(" not supported");
                s
            },
        }
    }
}

/// The text of bytes: what `String::from_utf8_lossy` makes of them.
pub uninterp spec fn lossy_text(bytes: Seq<u8>) -> Seq<char>;

/// Calls `String::from_utf8_lossy`: bytes that are UTF-8 give the text they encode; of other bytes
/// it is only said that the text depends on nothing else.
#[verifier::external_body]
fn text_of_bytes(bytes: &[u8]) -> (r: String)
    ensures
        r@ == lossy_text(bytes@),
        vstd::utf8::valid_utf8(bytes@) ==> r@ == vstd::utf8::decode_utf8(bytes@),
{
    String::from_utf8_lossy(bytes).into_owned()
}

/// The text of a name's bytes: what they encode in UTF-8, and a lossy text where they are none.
pub open spec fn name_text(bytes: Seq<u8>) -> Seq<char> {
    if vstd::utf8::valid_utf8(bytes) {
        vstd::utf8::decode_utf8(bytes)
    } else {
        lossy_text(bytes)
    }
}

/// An initializer without any field.
pub open spec fn blank() -> TensorFields {
    TensorFields {
        dims: Seq::empty(),
        data_type: 0,
        float_data: Seq::empty(),
        int32_data: Seq::empty(),
        int64_data: Seq::empty(),
        uint64_data: Seq::empty(),
        double_data: Seq::empty(),
        name: Seq::empty(),
        raw_data: Seq::empty(),
        data_location: 0,
    }
}

/// The signed number that a 64-bit number stands for.
pub open spec fn long(v: u64) -> i64 {
    elements::signed(v as int, 0x1_0000_0000_0000_0000) as i64
}

/// The signed number that the lower half of a 64-bit number stands for.
pub open spec fn short(v: u64) -> i32 {
    elements::signed(v as int % 0x1_0000_0000, 0x1_0000_0000) as i32
}

/// The signed numbers that 64-bit numbers stand for.
pub open spec fn longs(s: Seq<u64>) -> Seq<i64> {
    s.map_values(|v: u64| long(v))
}

/// The signed numbers that the lower halves of 64-bit numbers stand for.
pub open spec fn shorts(s: Seq<u64>) -> Seq<i32> {
    s.map_values(|v: u64| short(v))
}

/// The initializer with one more field: repeated fields grow, others are replaced, and unknown
/// ones are passed over.
#[verifier::opaque]
pub open spec fn applied(t: TensorFields, f: Field) -> Result<TensorFields, ProtoError> {
    match f.value {
        Value::Varint(v) => Ok(
            if f.number == 1 {
                TensorFields { dims: t.dims.push(long(v)), ..t }
            } else if f.number == 2 {
                TensorFields { data_type: short(v), ..t }
            } else if f.number == 5 {
                TensorFields { int32_data: t.int32_data.push(short(v)), ..t }
            } else if f.number == 7 {
                TensorFields { int64_data: t.int64_data.push(long(v)), ..t }
            } else if f.number == 11 {
                TensorFields { uint64_data: t.uint64_data.push(v), ..t }
            } else if f.number == 14 {
                TensorFields { data_location: v, ..t }
            } else {
                t
            },
        ),
        Value::Fixed32(v) => Ok(
            if f.number == 4 {
                TensorFields { float_data: t.float_data.push(v), ..t }
            } else {
                t
            },
        ),
        Value::Fixed64(v) => Ok(
            if f.number == 10 {
                TensorFields { double_data: t.double_data.push(v), ..t }
            } else {
                t
            },
        ),
        Value::Bytes(b) => if f.number == 1 {
            match proto::varints(b) {
                Ok(s) => Ok(TensorFields { dims: t.dims + longs(s), ..t }),
                Err(e) => Err(e),
            }
        } else if f.number == 4 {
            match proto::fixed32s(b) {
                Ok(s) => Ok(TensorFields { float_data: t.float_data + s, ..t }),
                Err(e) => Err(e),
            }
        } else if f.number == 5 {
            match proto::varints(b) {
                Ok(s) => Ok(TensorFields { int32_data: t.int32_data + shorts(s), ..t }),
                Err(e) => Err(e),
            }
        } else if f.number == 7 {
            match proto::varints(b) {
                Ok(s) => Ok(TensorFields { int64_data: t.int64_data + longs(s), ..t }),
                Err(e) => Err(e),
            }
        } else if f.number == 8 {
            Ok(TensorFields { name: name_text(b), ..t })
        } else if f.number == 9 {
            Ok(TensorFields { raw_data: b, ..t })
        } else if f.number == 10 {
            match proto::fixed64s(b) {
                Ok(s) => Ok(TensorFields { double_data: t.double_data + s, ..t }),
                Err(e) => Err(e),
            }
        } else if f.number == 11 {
            match proto::varints(b) {
                Ok(s) => Ok(TensorFields { uint64_data: t.uint64_data + s, ..t }),
                Err(e) => Err(e),
            }
        } else {
            Ok(t)
        },
    }
}

/// The initializer with the fields of `b` added in their order.
pub open spec fn tensor(b: Seq<u8>, t: TensorFields) -> Result<TensorFields, ProtoError>
    decreases b.len(),
{
    if b.len() == 0 {
        Ok(t)
    } else {
        match proto::field(b) {
            Err(e) => Err(e),
            Ok((f, n)) => match applied(t, f) {
                Err(e) => Err(e),
                Ok(u) => if 1 <= n <= b.len() {
                    tensor(b.skip(n as int), u)
                } else {
                    Ok(u)
                },
            },
        }
    }
}

/// The initializers of a graph, behind those that came before.
pub open spec fn graph(b: Seq<u8>, had: Seq<TensorFields>) -> Result<Seq<TensorFields>, ProtoError>
    decreases b.len(),
{
    if b.len() == 0 {
        Ok(had)
    } else {
        match proto::field(b) {
            Err(e) => Err(e),
            Ok((f, n)) => match with_initializer(f, had) {
                Err(e) => Err(e),
                Ok(u) => if 1 <= n <= b.len() {
                    graph(b.skip(n as int), u)
                } else {
                    Ok(u)
                },
            },
        }
    }
}

/// The initializers after one more field of a graph.
pub open spec fn with_initializer(f: Field, had: Seq<TensorFields>) -> Result<Seq<TensorFields>, ProtoError> {
    match f.value {
        Value::Bytes(b) => if f.number == 5 {
            match tensor(b, blank()) {
                Ok(t) => Ok(had.push(t)),
                Err(e) => Err(e),
            }
        } else {
            Ok(had)
        },
        _ => Ok(had),
    }
}

/// The initializers after one more field of a model.
pub open spec fn with_graph(f: Field, had: Seq<TensorFields>) -> Result<Seq<TensorFields>, ProtoError> {
    match f.value {
        Value::Bytes(b) => if f.number == 7 {
            match graph(b, Seq::empty()) {
                Ok(s) => Ok(had + s),
                Err(e) => Err(e),
            }
        } else {
            Ok(had)
        },
        _ => Ok(had),
    }
}

/// The initializers of a model, behind those that came before.
pub open spec fn model(b: Seq<u8>, had: Seq<TensorFields>) -> Result<Seq<TensorFields>, ProtoError>
    decreases b.len(),
{
    if b.len() == 0 {
        Ok(had)
    } else {
        match proto::field(b) {
            Err(e) => Err(e),
            Ok((f, n)) => match with_graph(f, had) {
                Err(e) => Err(e),
                Ok(u) => if 1 <= n <= b.len() {
                    model(b.skip(n as int), u)
                } else {
                    Ok(u)
                },
            },
        }
    }
}

/// What initializers hold.
pub open spec fn protos(s: Seq<TensorProto>) -> Seq<TensorFields> {
    s.map_values(|t: TensorProto| t@)
}

fn push_longs(out: &mut Vec<i64>, vals: &Vec<u64>)
    ensures
        final(out)@ == old(out)@ + longs(vals@),
{
    let mut i: usize = 0;
    assert(out@ =~= old(out)@ + longs(vals@).take(0));
    while i < vals.len()
        invariant
            i <= vals@.len(),
            out@ == old(out)@ + longs(vals@).take(i as int),
        decreases vals@.len() - i,
    {
        out.push(elements::signed64(vals[i]));
        i += 1;
        assert(out@ =~= old(out)@ + longs(vals@).take(i as int));
    }
    assert(longs(vals@).take(i as int) =~= longs(vals@));
}

fn push_shorts(out: &mut Vec<i32>, vals: &Vec<u64>)
    ensures
        final(out)@ == old(out)@ + shorts(vals@),
{
    let mut i: usize = 0;
    assert(out@ =~= old(out)@ + shorts(vals@).take(0));
    while i < vals.len()
        invariant
            i <= vals@.len(),
            out@ == old(out)@ + shorts(vals@).take(i as int),
        decreases vals@.len() - i,
    {
        out.push(elements::signed32(vals[i]));
        i += 1;
        assert(out@ =~= old(out)@ + shorts(vals@).take(i as int));
    }
    assert(shorts(vals@).take(i as int) =~= shorts(vals@));
}

impl TensorProto {
    /// An initializer without any field.
    pub fn new() -> (r: TensorProto)
        ensures
            r@ == blank(),
    {
        let r = TensorProto {
            dims: Vec::new(),
            data_type: 0,
            float_data: Vec::new(),
            int32_data: Vec::new(),
            int64_data: Vec::new(),
            uint64_data: Vec::new(),
            double_data: Vec::new(),
            name: String::new(),
            raw_data: Vec::new(),
            data_location: 0,
        };
        assert(r@.name =~= blank().name);
        r
    }

    /// Adds one field.
    fn apply(&mut self, number: u64, v: Read) -> (r: Result<(), ProtoError>)
        ensures
            match applied(old(self)@, (Field { number, value: v@ })) {
                Ok(t) => r is Ok && final(self)@ == t,
                Err(e) => r matches Err(f) && f == e,
            },
    {
        reveal(applied);
        match v {
            Read::Varint(v) => {
                if number == 1 {
                    self.dims.push(elements::signed64(v));
                } else if number == 2 {
                    self.data_type = elements::signed32(v);
                } else if number == 5 {
                    self.int32_data.push(elements::signed32(v));
                } else if number == 7 {
                    self.int64_data.push(elements::signed64(v));
                } else if number == 11 {
                    self.uint64_data.push(v);
                } else if number == 14 {
                    self.data_location = v;
                }
                Ok(())
            },
            Read::Fixed32(v) => {
                if number == 4 {
                    self.float_data.push(v);
                }
                Ok(())
            },
            Read::Fixed64(v) => {
                if number == 10 {
                    self.double_data.push(v);
                }
                Ok(())
            },
            Read::Bytes(b) => self.apply_bytes(number, b),
        }
    }

    fn apply_bytes(&mut self, number: u64, b: &[u8]) -> (r: Result<(), ProtoError>)
        ensures
            match applied(old(self)@, (Field { number, value: Value::Bytes(b@) })) {
                Ok(t) => r is Ok && final(self)@ == t,
                Err(e) => r matches Err(f) && f == e,
            },
    {
        reveal(applied);
        if number == 1 || number == 5 || number == 7 || number == 11 {
            let mut vals: Vec<u64> = match proto::read_varints(b) {
                Ok(vals) => vals,
                Err(e) => return Err(e),
            };
            if number == 1 {
                push_longs(&mut self.dims, &vals);
            } else if number == 5 {
                push_shorts(&mut self.int32_data, &vals);
            } else if number == 7 {
                push_longs(&mut self.int64_data, &vals);
            } else {
                self.uint64_data.append(&mut vals);
            }
        } else if number == 4 {
            match proto::read_fixed32s(b) {
                Ok(mut vals) => self.float_data.append(&mut vals),
                Err(e) => return Err(e),
            }
        } else if number == 8 {
            self.name = text_of_bytes(b);
        } else if number == 9 {
            self.raw_data = cast::copy_bytes(b);
        } else if number == 10 {
            match proto::read_fixed64s(b) {
                Ok(mut vals) => self.double_data.append(&mut vals),
                Err(e) => return Err(e),
            }
        }
        Ok(())
    }
}

fn parse_tensor(buf: &[u8]) -> (r: Result<TensorProto, ProtoError>)
    ensures
        match tensor(buf@, blank()) {
            Ok(t) => r matches Ok(p) && p@ == t,
            Err(e) => r matches Err(f) && f == e,
        },
{
    let mut r = ProtoReader::new(buf);
    let mut t = TensorProto::new();
    while !r.done()
        invariant
            r.wf(),
            tensor(buf@, blank()) == tensor(r.rest(), t@),
        decreases r.rest().len(),
    {
        let ghost rest = r.rest();
        proof {
            proto::lemma_lengths(rest);
        }
        let (number, v) = match r.read_field() {
            Ok(f) => f,
            Err(e) => return Err(e),
        };
        proof {
            let (f, n) = proto::field(rest)->Ok_0;
            assert(f == Field { number, value: v@ });
            assert(r.rest() =~= rest.skip(n as int));
        }
        match t.apply(number, v) {
            Ok(()) => {},
            Err(e) => return Err(e),
        }
    }
    Ok(t)
}

fn parse_graph(buf: &[u8]) -> (r: Result<Vec<TensorProto>, ProtoError>)
    ensures
        match graph(buf@, Seq::empty()) {
            Ok(s) => r matches Ok(v) && protos(v@) == s,
            Err(e) => r matches Err(f) && f == e,
        },
{
    let mut r = ProtoReader::new(buf);
    let mut out: Vec<TensorProto> = Vec::new();
    assert(protos(out@) =~= Seq::<TensorFields>::empty());
    while !r.done()
        invariant
            r.wf(),
            graph(buf@, Seq::empty()) == graph(r.rest(), protos(out@)),
        decreases r.rest().len(),
    {
        let ghost rest = r.rest();
        let ghost had = out@;
        proof {
            proto::lemma_lengths(rest);
        }
        let (number, v) = match r.read_field() {
            Ok(f) => f,
            Err(e) => return Err(e),
        };
        proof {
            let (f, n) = proto::field(rest)->Ok_0;
            assert(f == Field { number, value: v@ });
            assert(r.rest() =~= rest.skip(n as int));
        }
        match v {
            Read::Bytes(b) => {
                if number == 5 {
                    match parse_tensor(b) {
                        Ok(t) => {
                            out.push(t);
                            assert(protos(out@) =~= protos(had).push(t@));
                        },
                        Err(e) => return Err(e),
                    }
                }
            },
            _ => {},
        }
    }
    Ok(out)
}

/// The initializers of a model.
pub fn parse_model(buf: &[u8]) -> (r: Result<Vec<TensorProto>, ProtoError>)
    ensures
        match model(buf@, Seq::empty()) {
            Ok(s) => r matches Ok(v) && protos(v@) == s,
            Err(e) => r matches Err(f) && f == e,
        },
{
    let mut r = ProtoReader::new(buf);
    let mut out: Vec<TensorProto> = Vec::new();
    assert(protos(out@) =~= Seq::<TensorFields>::empty());
    while !r.done()
        invariant
            r.wf(),
            model(buf@, Seq::empty()) == model(r.rest(), protos(out@)),
        decreases r.rest().len(),
    {
        let ghost rest = r.rest();
        let ghost had = out@;
        proof {
            proto::lemma_lengths(rest);
        }
        let (number, v) = match r.read_field() {
            Ok(f) => f,
            Err(e) => return Err(e),
        };
        proof {
            let (f, n) = proto::field(rest)->Ok_0;
            assert(f == Field { number, value: v@ });
            assert(r.rest() =~= rest.skip(n as int));
        }
        match v {
            Read::Bytes(b) => {
                if number == 7 {
                    match parse_graph(b) {
                        Ok(mut found) => {
                            let ghost new = found@;
                            out.append(&mut found);
                            assert(protos(out@) =~= protos(had) + protos(new));
                        },
                        Err(e) => return Err(e),
                    }
                }
            },
            _ => {},
        }
    }
    Ok(out)
}

/// How the elements of an initializer are read.
pub enum Kind {
    /// Their bytes are kept.
    Kept(SrcDtype),
    /// They are carried over to single precision.
    Carried(Stored),
}

/// How the elements of a type are read.
pub open spec fn kind_of(data_type: i32) -> Option<Kind> {
    if data_type == 1 {
        Some(Kind::Kept(SrcDtype::F32))
    } else if data_type == 2 {
        Some(Kind::Carried(Stored::U8))
    } else if data_type == 3 {
        Some(Kind::Carried(Stored::I8))
    } else if data_type == 4 {
        Some(Kind::Carried(Stored::U16))
    } else if data_type == 5 {
        Some(Kind::Carried(Stored::I16))
    } else if data_type == 6 {
        Some(Kind::Carried(Stored::I32))
    } else if data_type == 7 {
        Some(Kind::Carried(Stored::I64))
    } else if data_type == 9 {
        Some(Kind::Carried(Stored::Bool))
    } else if data_type == 10 {
        Some(Kind::Kept(SrcDtype::F16))
    } else if data_type == 11 {
        Some(Kind::Carried(Stored::F64))
    } else if data_type == 12 {
        Some(Kind::Carried(Stored::U32))
    } else if data_type == 13 {
        Some(Kind::Carried(Stored::U64))
    } else if data_type == 16 {
        Some(Kind::Kept(SrcDtype::BF16))
    } else {
        None
    }
}

fn element_kind(data_type: i32) -> (r: Option<Kind>)
    ensures
        r == kind_of(data_type),
{
    match data_type {
        1 => Some(Kind::Kept(SrcDtype::F32)),
        2 => Some(Kind::Carried(Stored::U8)),
        3 => Some(Kind::Carried(Stored::I8)),
        4 => Some(Kind::Carried(Stored::U16)),
        5 => Some(Kind::Carried(Stored::I16)),
        6 => Some(Kind::Carried(Stored::I32)),
        7 => Some(Kind::Carried(Stored::I64)),
        9 => Some(Kind::Carried(Stored::Bool)),
        10 => Some(Kind::Kept(SrcDtype::F16)),
        11 => Some(Kind::Carried(Stored::F64)),
        12 => Some(Kind::Carried(Stored::U32)),
        13 => Some(Kind::Carried(Stored::U64)),
        16 => Some(Kind::Kept(SrcDtype::BF16)),
        _ => None,
    }
}

/// The elements of an initializer that are carried over to single precision, out of the raw bytes
/// where there are any, else out of the field for their type.
pub open spec fn carried(t: TensorFields, kind: Stored) -> Seq<u32> {
    if t.raw_data.len() > 0 {
        elements::stored(kind, t.raw_data)
    } else {
        match kind {
            Stored::F64 => t.double_data.map_values(|v: u64| num::single_of_double(v) as u32),
            Stored::I64 => t.int64_data.map_values(|v: i64| num::single_of_int(v as int) as u32),
            Stored::U64 => t.uint64_data.map_values(|v: u64| num::single_of_int(v as int) as u32),
            _ => t.int32_data.map_values(|v: i32| num::single_of_int(v as int) as u32),
        }
    }
}

/// The bytes of an initializer's elements in the format that they are given in.
pub open spec fn element_bytes(t: TensorFields, kind: Kind) -> Seq<u8> {
    match kind {
        Kind::Kept(dtype) => if t.raw_data.len() > 0 {
            t.raw_data
        } else if dtype == SrcDtype::F32 {
            cast::single_bytes(t.float_data)
        } else {
            cast::short_bytes(t.int32_data.map_values(|v: i32| (v as int % 0x1_0000) as u16))
        },
        Kind::Carried(stored) => cast::single_bytes(carried(t, stored)),
    }
}

/// The format that an initializer's elements are given in.
pub open spec fn element_dtype(kind: Kind) -> SrcDtype {
    match kind {
        Kind::Kept(dtype) => dtype,
        Kind::Carried(_) => SrcDtype::F32,
    }
}

/// The tensor of an initializer, where its elements are of a type that is read.
pub open spec fn raw_of(t: TensorFields) -> Option<RawView> {
    match kind_of(t.data_type) {
        None => None,
        Some(kind) => Some(
            RawView {
                name: t.name,
                shape: t.dims.map_values(|d: i64| (d as int % 0x1_0000_0000_0000_0000) as u64),
                dtype: element_dtype(kind),
                data: element_bytes(t, kind),
            },
        ),
    }
}

fn carried_values(t: &TensorProto, kind: Stored) -> (r: Vec<u32>)
    ensures
        r@ == carried(t@, kind),
{
    if t.raw_data.len() > 0 {
        return elements::decode_stored(kind, t.raw_data.as_slice());
    }
    let mut out: Vec<u32> = Vec::new();
    let mut i: usize = 0;
    match kind {
        Stored::F64 => {
            while i < t.double_data.len()
                invariant
                    i <= t.double_data@.len(),
                    out@.len() == i,
                    forall|q: int| 0 <= q < i ==> #[trigger] out@[q] == num::single_of_double(t.double_data@[q]),
                decreases t.double_data@.len() - i,
            {
                out.push(num::f64_to_f32(t.double_data[i]));
                i += 1;
            }
        },
        Stored::I64 => {
            while i < t.int64_data.len()
                invariant
                    i <= t.int64_data@.len(),
                    out@.len() == i,
                    forall|q: int| 0 <= q < i ==> #[trigger] out@[q] == num::single_of_int(t.int64_data@[q] as int),
                decreases t.int64_data@.len() - i,
            {
                out.push(num::i64_to_f32(t.int64_data[i]));
                i += 1;
            }
        },
        Stored::U64 => {
            while i < t.uint64_data.len()
                invariant
                    i <= t.uint64_data@.len(),
                    out@.len() == i,
                    forall|q: int| 0 <= q < i ==> #[trigger] out@[q] == num::single_of_int(t.uint64_data@[q] as int),
                decreases t.uint64_data@.len() - i,
            {
                out.push(num::nat_to_f32(t.uint64_data[i]));
                i += 1;
            }
        },
        _ => {
            while i < t.int32_data.len()
                invariant
                    i <= t.int32_data@.len(),
                    out@.len() == i,
                    forall|q: int| 0 <= q < i ==> #[trigger] out@[q] == num::single_of_int(t.int32_data@[q] as int),
                decreases t.int32_data@.len() - i,
            {
                out.push(num::i64_to_f32(t.int32_data[i] as i64));
                i += 1;
            }
        },
    }
    assert(out@ =~= carried(t@, kind));
    out
}

fn low_halves(vals: &Vec<i32>) -> (r: Vec<u16>)
    ensures
        r@ == vals@.map_values(|v: i32| (v as int % 0x1_0000) as u16),
{
    let mut out: Vec<u16> = Vec::new();
    let mut i: usize = 0;
    while i < vals.len()
        invariant
            i <= vals@.len(),
            out@.len() == i,
            forall|q: int| 0 <= q < i ==> #[trigger] out@[q] == (vals@[q] as int % 0x1_0000) as u16,
        decreases vals@.len() - i,
    {
        let lifted: u64 = (vals[i] as i64 + 0x1_0000_0000) as u64;
        out.push((lifted % 0x1_0000) as u16);
        i += 1;
    }
    assert(out@ =~= vals@.map_values(|v: i32| (v as int % 0x1_0000) as u16));
    out
}

fn unsigned_dims(dims: &Vec<i64>) -> (r: Vec<u64>)
    ensures
        r@ == dims@.map_values(|d: i64| (d as int % 0x1_0000_0000_0000_0000) as u64),
{
    let mut out: Vec<u64> = Vec::new();
    let mut i: usize = 0;
    while i < dims.len()
        invariant
            i <= dims@.len(),
            out@.len() == i,
            forall|q: int| 0 <= q < i ==> #[trigger] out@[q] == (dims@[q] as int % 0x1_0000_0000_0000_0000) as u64,
        decreases dims@.len() - i,
    {
        let d: i64 = dims[i];
        out.push(if d >= 0 { d as u64 } else { (d as i128 + 0x1_0000_0000_0000_0000) as u64 });
        i += 1;
    }
    assert(out@ =~= dims@.map_values(|d: i64| (d as int % 0x1_0000_0000_0000_0000) as u64));
    out
}

/// The tensor of an initializer.
pub fn tensor_proto_to_raw(t: &TensorProto) -> (r: Result<RawTensor, OnnxError>)
    ensures
        match r {
            Ok(raw) => gives(t@, raw@),
            Err(e) => !readable(t@) && refused(t@, e),
        },
{
    if t.data_location == 1 {
        return Err(OnnxError::ExternalData { name: t.name.as_str().to_string() });
    }
    let kind = match element_kind(t.data_type) {
        Some(kind) => kind,
        None => {
            return Err(
                OnnxError::UnsupportedType { name: t.name.as_str().to_string(), data_type: t.data_type },
            );
        },
    };
    let (dtype, data) = match kind {
        Kind::Kept(dtype) => {
            if t.raw_data.len() > 0 {
                (dtype, cast::copy_bytes(t.raw_data.as_slice()))
            } else {
                match dtype {
                    SrcDtype::F32 => (dtype, cast::f32_to_bytes(t.float_data.as_slice())),
                    _ => {
                        let low: Vec<u16> = low_halves(&t.int32_data);
                        (dtype, cast::u16_to_bytes(low.as_slice()))
                    },
                }
            }
        },
        Kind::Carried(stored) => {
            let vals: Vec<u32> = carried_values(t, stored);
            (SrcDtype::F32, cast::f32_to_bytes(vals.as_slice()))
        },
    };
    Ok(RawTensor { name: t.name.as_str().to_string(), shape: unsigned_dims(&t.dims), dtype, data })
}

/// The note on elements that are carried over to single precision.
pub fn cast_note(t: &TensorProto) -> (r: Option<String>)
    ensures
        match kind_of(t@.data_type) {
            Some(Kind::Carried(stored)) => r matches Some(s) && s@ == "note: tensor "@ + t@.name + (match stored {
                Stored::F64 => ": casting DOUBLE to F32"@,
                Stored::I64 => ": casting INT64 to F32"@,
                Stored::U64 => ": casting UINT64 to F32"@,
                _ => ": casting integer/bool data to F32"@,
            }),
            _ => r is None,
        },
{
    match element_kind(t.data_type) {
        Some(Kind::Carried(stored)) => {
            let mut s: String = text::join2("note: tensor ", t.name.as_str());
            s.append(
                match stored {
                    Stored::F64 => ": casting DOUBLE to F32",
                    Stored::I64 => ": casting INT64 to F32",
                    Stored::U64 => ": casting UINT64 to F32",
                    _ => ": casting integer/bool data to F32",
                },
            );
            Some(s)
        },
        _ => None,
    }
}

/// Whether an initializer gives a tensor.
pub open spec fn readable(t: TensorFields) -> bool {
    t.data_location != 1 && raw_of(t) is Some
}

/// Whether an initializer gives the tensor.
pub open spec fn gives(t: TensorFields, raw: RawView) -> bool {
    t.data_location != 1 && raw_of(t) == Some(raw)
}

/// The tensors of a model's initializers, in their order. Of several initializers that give none,
/// the first one decides what is wrong.
pub fn load_onnx(bytes: &[u8]) -> (r: Result<Vec<RawTensor>, OnnxError>)
    ensures
        match model(bytes@, Seq::empty()) {
            Err(e) => r matches Err(OnnxError::Malformed(f)) && f == e,
            Ok(ts) => match r {
                Ok(tensors) => ts.len() > 0 && tensors@.len() == ts.len() && forall|i: int|
                    0 <= i < ts.len() ==> gives(#[trigger] ts[i], tensors@[i]@),
                Err(e) => if ts.len() == 0 {
                    e is NoInitializers
                } else {
                    exists|i: int| #[trigger] first_unreadable(ts, i) && refused(ts[i], e)
                },
            },
        },
{
    let init = match parse_model(bytes) {
        Ok(init) => init,
        Err(e) => return Err(OnnxError::Malformed(e)),
    };
    let ghost ts = protos(init@);
    if init.len() == 0 {
        return Err(OnnxError::NoInitializers);
    }
    let mut tensors: Vec<RawTensor> = Vec::new();
    let mut i: usize = 0;
    while i < init.len()
        invariant
            i <= init@.len(),
            ts == protos(init@),
            model(bytes@, Seq::empty()) == Ok::<Seq<TensorFields>, ProtoError>(ts),
            ts.len() > 0,
            tensors@.len() == i,
            forall|q: int| 0 <= q < i ==> gives(#[trigger] ts[q], tensors@[q]@),
        decreases init@.len() - i,
    {
        assert(init@[i as int]@ == ts[i as int]);
        match tensor_proto_to_raw(&init[i]) {
            Ok(raw) => {
                tensors.push(raw);
            },
            Err(e) => {
                assert(!readable(ts[i as int]));
                assert(first_unreadable(ts, i as int));
                return Err(e);
            },
        }
        i += 1;
    }
    Ok(tensors)
}

/// The error for an initializer that gives no tensor.
pub open spec fn refused(t: TensorFields, e: OnnxError) -> bool {
    if t.data_location == 1 {
        e matches OnnxError::ExternalData { name } && name@ == t.name
    } else {
        e matches OnnxError::UnsupportedType { name, data_type } && name@ == t.name && data_type == t.data_type
    }
}

/// The `i`th initializer is the first that gives no tensor.
pub open spec fn first_unreadable(ts: Seq<TensorFields>, i: int) -> bool {
    &&& 0 <= i < ts.len()
    &&& !readable(ts[i])
    &&& forall|q: int| 0 <= q < i ==> readable(#[trigger] ts[q])
}

/// The numbers of the element types.
pub proof fn law_element_types(data_type: i32)
    ensures
        kind_of(1) == Some(Kind::Kept(SrcDtype::F32)),
        kind_of(2) == Some(Kind::Carried(Stored::U8)),
        kind_of(3) == Some(Kind::Carried(Stored::I8)),
        kind_of(4) == Some(Kind::Carried(Stored::U16)),
        kind_of(5) == Some(Kind::Carried(Stored::I16)),
        kind_of(6) == Some(Kind::Carried(Stored::I32)),
        kind_of(7) == Some(Kind::Carried(Stored::I64)),
        kind_of(9) == Some(Kind::Carried(Stored::Bool)),
        kind_of(10) == Some(Kind::Kept(SrcDtype::F16)),
        kind_of(11) == Some(Kind::Carried(Stored::F64)),
        kind_of(12) == Some(Kind::Carried(Stored::U32)),
        kind_of(13) == Some(Kind::Carried(Stored::U64)),
        kind_of(16) == Some(Kind::Kept(SrcDtype::BF16)),
        kind_of(data_type) is Some ==> 1 <= data_type <= 16 && data_type != 8 && data_type != 14 && data_type != 15,
{
}

/// What the fields of a tensor are: the axes, the type, the name, the elements in their lists or as
/// bytes, and where the data is. A list takes one element, or many that are packed.
pub proof fn law_tensor_fields(t: TensorFields, v: u64, w: u32, b: Seq<u8>)
    ensures
        applied(t, Field { number: 1, value: Value::Varint(v) }) == Ok::<TensorFields, ProtoError>(
            TensorFields { dims: t.dims.push(long(v)), ..t },
        ),
        applied(t, Field { number: 2, value: Value::Varint(v) }) == Ok::<TensorFields, ProtoError>(
            TensorFields { data_type: short(v), ..t },
        ),
        applied(t, Field { number: 4, value: Value::Fixed32(w) }) == Ok::<TensorFields, ProtoError>(
            TensorFields { float_data: t.float_data.push(w), ..t },
        ),
        applied(t, Field { number: 5, value: Value::Varint(v) }) == Ok::<TensorFields, ProtoError>(
            TensorFields { int32_data: t.int32_data.push(short(v)), ..t },
        ),
        applied(t, Field { number: 7, value: Value::Varint(v) }) == Ok::<TensorFields, ProtoError>(
            TensorFields { int64_data: t.int64_data.push(long(v)), ..t },
        ),
        applied(t, Field { number: 8, value: Value::Bytes(b) }) == Ok::<TensorFields, ProtoError>(
            TensorFields { name: name_text(b), ..t },
        ),
        applied(t, Field { number: 9, value: Value::Bytes(b) }) == Ok::<TensorFields, ProtoError>(
            TensorFields { raw_data: b, ..t },
        ),
        applied(t, Field { number: 10, value: Value::Fixed64(v) }) == Ok::<TensorFields, ProtoError>(
            TensorFields { double_data: t.double_data.push(v), ..t },
        ),
        applied(t, Field { number: 11, value: Value::Varint(v) }) == Ok::<TensorFields, ProtoError>(
            TensorFields { uint64_data: t.uint64_data.push(v), ..t },
        ),
        applied(t, Field { number: 14, value: Value::Varint(v) }) == Ok::<TensorFields, ProtoError>(
            TensorFields { data_location: v, ..t },
        ),
        proto::varints(b) matches Ok(s) ==> {
            &&& applied(t, Field { number: 1, value: Value::Bytes(b) }) == Ok::<TensorFields, ProtoError>(
                TensorFields { dims: t.dims + longs(s), ..t },
            )
            &&& applied(t, Field { number: 5, value: Value::Bytes(b) }) == Ok::<TensorFields, ProtoError>(
                TensorFields { int32_data: t.int32_data + shorts(s), ..t },
            )
            &&& applied(t, Field { number: 7, value: Value::Bytes(b) }) == Ok::<TensorFields, ProtoError>(
                TensorFields { int64_data: t.int64_data + longs(s), ..t },
            )
            &&& applied(t, Field { number: 11, value: Value::Bytes(b) }) == Ok::<TensorFields, ProtoError>(
                TensorFields { uint64_data: t.uint64_data + s, ..t },
            )
        },
        proto::fixed32s(b) matches Ok(s) ==> applied(t, Field { number: 4, value: Value::Bytes(b) }) == Ok::<
            TensorFields,
            ProtoError,
        >(TensorFields { float_data: t.float_data + s, ..t }),
        proto::fixed64s(b) matches Ok(s) ==> applied(t, Field { number: 10, value: Value::Bytes(b) }) == Ok::<
            TensorFields,
            ProtoError,
        >(TensorFields { double_data: t.double_data + s, ..t }),
{
    reveal(applied);
}

/// Fields that say nothing of a tensor change nothing, and every field changes only its own.
pub proof fn law_other_fields_change_nothing(t: TensorFields, f: Field)
    requires
        applied(t, f) is Ok,
    ensures
        f.number != 1 ==> applied(t, f)->Ok_0.dims == t.dims,
        f.number != 2 ==> applied(t, f)->Ok_0.data_type == t.data_type,
        f.number != 4 ==> applied(t, f)->Ok_0.float_data == t.float_data,
        f.number != 5 ==> applied(t, f)->Ok_0.int32_data == t.int32_data,
        f.number != 7 ==> applied(t, f)->Ok_0.int64_data == t.int64_data,
        f.number != 8 ==> applied(t, f)->Ok_0.name == t.name,
        f.number != 9 ==> applied(t, f)->Ok_0.raw_data == t.raw_data,
        f.number != 10 ==> applied(t, f)->Ok_0.double_data == t.double_data,
        f.number != 11 ==> applied(t, f)->Ok_0.uint64_data == t.uint64_data,
        f.number != 14 ==> applied(t, f)->Ok_0.data_location == t.data_location,
{
    reveal(applied);
}

/// A model's graph is its field seven, a graph's tensors are its fields five, and what else there is
/// adds none.
pub proof fn law_where_tensors_are(had: Seq<TensorFields>, f: Field, b: Seq<u8>)
    ensures
        tensor(b, blank()) matches Ok(t) ==> with_initializer(Field { number: 5, value: Value::Bytes(b) }, had) == Ok::<
            Seq<TensorFields>,
            ProtoError,
        >(had.push(t)),
        graph(b, Seq::empty()) matches Ok(s) ==> with_graph(Field { number: 7, value: Value::Bytes(b) }, had) == Ok::<
            Seq<TensorFields>,
            ProtoError,
        >(had + s),
        f.number != 5 ==> with_initializer(f, had) == Ok::<Seq<TensorFields>, ProtoError>(had),
        f.number != 7 ==> with_graph(f, had) == Ok::<Seq<TensorFields>, ProtoError>(had),
{
}

/// A tensor keeps its name and its axes; its elements are its bytes where it has any, and else the list
/// of its type. Singles, halves and the upper halves of singles are kept as they are.
pub proof fn law_tensors_are_kept(t: TensorFields, i: int)
    ensures
        raw_of(t) matches Some(r) ==> r.name == t.name && r.shape.len() == t.dims.len(),
        raw_of(t) is Some && 0 <= i < t.dims.len() && t.dims[i] >= 0 ==> raw_of(t)->0.shape[i] == t.dims[i],
        t.data_type == 1 ==> raw_of(t)->0.dtype == SrcDtype::F32 && (t.raw_data.len() > 0 ==> raw_of(t)->0.data
            == t.raw_data) && (t.raw_data.len() == 0 ==> raw_of(t)->0.data == cast::single_bytes(t.float_data)),
        t.data_type == 10 ==> raw_of(t)->0.dtype == SrcDtype::F16 && (t.raw_data.len() > 0 ==> raw_of(t)->0.data
            == t.raw_data),
        t.data_type == 16 ==> raw_of(t)->0.dtype == SrcDtype::BF16 && (t.raw_data.len() > 0 ==> raw_of(t)->0.data
            == t.raw_data),
        (t.data_type == 10 || t.data_type == 16) && t.raw_data.len() == 0 && 0 <= i < t.int32_data.len() && 0
            <= t.int32_data[i] < 0x1_0000 ==> raw_of(t)->0.data[2 * i] + 256 * raw_of(t)->0.data[2 * i + 1]
            == t.int32_data[i],
{
    let shorts = t.int32_data.map_values(|v: i32| (v as int % 0x1_0000) as u16);
    cast::law_numbers_are_little_endian(Seq::empty(), shorts, i);
}

/// What is carried over: the bytes of the type, or the list of doubles, of whole numbers of 64 bits
/// with or without a sign, or of the shorter ones.
pub proof fn law_lists_are_carried(t: TensorFields, kind: Stored, i: int)
    ensures
        t.raw_data.len() > 0 ==> carried(t, kind) == elements::stored(kind, t.raw_data),
        t.raw_data.len() == 0 && kind is F64 && 0 <= i < t.double_data.len() ==> carried(t, kind).len()
            == t.double_data.len() && carried(t, kind)[i] == num::single_of_double(t.double_data[i]) as u32,
        t.raw_data.len() == 0 && kind is I64 && 0 <= i < t.int64_data.len() ==> carried(t, kind).len()
            == t.int64_data.len() && carried(t, kind)[i] == num::single_of_int(t.int64_data[i] as int) as u32,
        t.raw_data.len() == 0 && kind is U64 && 0 <= i < t.uint64_data.len() ==> carried(t, kind).len()
            == t.uint64_data.len() && carried(t, kind)[i] == num::single_of_int(t.uint64_data[i] as int) as u32,
        t.raw_data.len() == 0 && !(kind is F64) && !(kind is I64) && !(kind is U64) && 0 <= i < t.int32_data.len()
            ==> carried(t, kind).len() == t.int32_data.len() && carried(t, kind)[i] == num::single_of_int(
            t.int32_data[i] as int,
        ) as u32,
{
}

/// A tensor whose data is elsewhere is refused, and so is one whose type is not read; others are read.
pub proof fn law_what_is_refused(t: TensorFields, e: OnnxError)
    ensures
        t.data_location == 1 ==> !readable(t),
        t.data_location != 1 && kind_of(t.data_type) is Some ==> readable(t),
        t.data_location != 1 && kind_of(t.data_type) is None ==> !readable(t),
        refused(t, e) ==> (e is ExternalData <==> t.data_location == 1) && (e is UnsupportedType <==> t.data_location
            != 1),
{
}

/// Numbers with a sign are read in two's complement.
pub proof fn law_signed_varints(v: u64)
    ensures
        v < 0x8000_0000_0000_0000 ==> long(v) == v,
        v >= 0x8000_0000_0000_0000 ==> long(v) == v - 0x1_0000_0000_0000_0000,
        v % 0x1_0000_0000 < 0x8000_0000 ==> short(v) == v % 0x1_0000_0000,
        v % 0x1_0000_0000 >= 0x8000_0000 ==> short(v) == v % 0x1_0000_0000 - 0x1_0000_0000,
{
}

/// How errors are worded.
pub proof fn law_errors_are_worded(e: proto::ProtoError, name: String, data_type: i32)
    ensures
        OnnxError::Malformed(e).text() == "parse ONNX protobuf: "@ + e.text(),
        OnnxError::NoInitializers.text()
            == "ONNX graph has no initializer tensors — the weights may live in external data files or be supplied as runtime inputs"@,
        (OnnxError::ExternalData { name }).text() == "tensor "@ + name@
            + ": stored as external data — re-export the model with weights embedded (onnx.external_data_helper.load_external_data_for_model + save) and convert again"@,
        (OnnxError::UnsupportedType { name, data_type }).text() == "tensor "@ + name@ + ": ONNX data_type "@
            + text::integer(data_type as int) + " not supported"@,
{
}

} // verus!
