//! Tensor elements of types that are carried over to single precision.

use vstd::prelude::*;

use crate::checkpoint::cast;
use crate::checkpoint::cast::SrcDtype;
use crate::checkpoint::num;
use crate::checkpoint::proto;

verus! {

/// A tensor: its name, its shape in row-major order, the format of its elements and their bytes.
#[derive(Debug)]
pub struct RawTensor {
    pub name: String,
    pub shape: Vec<u64>,
    pub dtype: SrcDtype,
    pub data: Vec<u8>,
}

/// What a tensor holds.
pub struct RawView {
    pub name: Seq<char>,
    pub shape: Seq<u64>,
    pub dtype: SrcDtype,
    pub data: Seq<u8>,
}

impl View for RawTensor {
    type V = RawView;

    open spec fn view(&self) -> RawView {
        RawView { name: self.name@, shape: self.shape@, dtype: self.dtype, data: self.data@ }
    }
}

/// What tensors hold.
pub open spec fn views(s: Seq<RawTensor>) -> Seq<RawView> {
    s.map_values(|t: RawTensor| t@)
}

/// The type of elements that are carried over to single precision.
#[derive(Debug, Clone, Copy, PartialEq, Eq, Structural)]
pub enum Stored {
    F64,
    I64,
    U64,
    I32,
    U32,
    I16,
    U16,
    I8,
    U8,
    Bool,
}

impl Stored {
    /// Bytes of one element.
    pub open spec fn width(self) -> nat {
        match self {
            Stored::F64 | Stored::I64 | Stored::U64 => 8,
            Stored::I32 | Stored::U32 => 4,
            Stored::I16 | Stored::U16 => 2,
            Stored::I8 | Stored::U8 | Stored::Bool => 1,
        }
    }
}

/// The signed number that `v` stands for among `span` numbers.
pub open spec fn signed(v: int, span: int) -> int {
    if 2 * v < span {
        v
    } else {
        v - span
    }
}

/// Element `i`, an integer.
pub open spec fn integer_at(kind: Stored, data: Seq<u8>, i: int) -> int {
    match kind {
        Stored::I64 => signed(proto::le64_at(data, 8 * i) as int, 0x1_0000_0000_0000_0000),
        Stored::U64 => proto::le64_at(data, 8 * i) as int,
        Stored::I32 => signed(proto::le32_at(data, 4 * i) as int, 0x1_0000_0000),
        Stored::U32 => proto::le32_at(data, 4 * i) as int,
        Stored::I16 => signed(cast::short_at(data, i) as int, 0x1_0000),
        Stored::U16 => cast::short_at(data, i) as int,
        Stored::I8 => signed(data[i] as int, 0x100),
        Stored::U8 => data[i] as int,
        _ => if data[i] != 0 {
            1
        } else {
            0
        },
    }
}

/// Element `i` in single precision.
pub open spec fn stored_at(kind: Stored, data: Seq<u8>, i: int) -> u32 {
    if kind == Stored::F64 {
        num::single_of_double(proto::le64_at(data, 8 * i)) as u32
    } else {
        num::single_of_int(integer_at(kind, data, i)) as u32
    }
}

/// The whole elements in single precision; a rest that is no element is left out.
pub open spec fn stored(kind: Stored, data: Seq<u8>) -> Seq<u32> {
    Seq::new(data.len() / kind.width(), |i: int| stored_at(kind, data, i))
}

/// The number that an unsigned 64-bit number stands for.
pub fn signed64(v: u64) -> (r: i64)
    ensures
        r == signed(v as int, 0x1_0000_0000_0000_0000),
{
    if v < 0x8000_0000_0000_0000 {
        v as i64
    } else {
        (v as i128 - 0x1_0000_0000_0000_0000) as i64
    }
}

/// The number that the lower 32 bits of a number stand for.
pub fn signed32(v: u64) -> (r: i32)
    ensures
        r == signed(v as int % 0x1_0000_0000, 0x1_0000_0000),
{
    let w: u64 = v % 0x1_0000_0000;
    if w < 0x8000_0000 {
        w as i32
    } else {
        (w as i64 - 0x1_0000_0000) as i32
    }
}

fn stored_value(kind: Stored, data: &[u8], i: usize) -> (r: u32)
    requires
        i < data@.len() / kind.width(),
    ensures
        r == stored_at(kind, data@, i as int),
{
    let n: usize = data.len();
    match kind {
        Stored::F64 => {
            assert(8 * i + 8 <= n);
            num::f64_to_f32(proto::read_le64(data, 8 * i))
        },
        Stored::I64 => {
            assert(8 * i + 8 <= n);
            num::i64_to_f32(signed64(proto::read_le64(data, 8 * i)))
        },
        Stored::U64 => {
            assert(8 * i + 8 <= n);
            num::nat_to_f32(proto::read_le64(data, 8 * i))
        },
        Stored::I32 => {
            assert(4 * i + 4 <= n);
            let v: u32 = cast::read_le32(data[4 * i], data[4 * i + 1], data[4 * i + 2], data[4 * i + 3]);
            num::i64_to_f32(signed32(v as u64) as i64)
        },
        Stored::U32 => {
            assert(4 * i + 4 <= n);
            let v: u32 = cast::read_le32(data[4 * i], data[4 * i + 1], data[4 * i + 2], data[4 * i + 3]);
            num::nat_to_f32(v as u64)
        },
        Stored::I16 => {
            assert(2 * i + 2 <= n);
            let v: u16 = cast::read_le16(data[2 * i], data[2 * i + 1]);
            num::i64_to_f32(if v < 0x8000 { v as i64 } else { v as i64 - 0x1_0000 })
        },
        Stored::U16 => {
            assert(2 * i + 2 <= n);
            num::nat_to_f32(cast::read_le16(data[2 * i], data[2 * i + 1]) as u64)
        },
        Stored::I8 => {
            let v: u8 = data[i];
            num::i64_to_f32(if v < 0x80 { v as i64 } else { v as i64 - 0x100 })
        },
        Stored::U8 => num::nat_to_f32(data[i] as u64),
        Stored::Bool => num::nat_to_f32(if data[i] != 0 { 1 } else { 0 }),
    }
}

/// The whole elements in single precision.
pub fn decode_stored(kind: Stored, data: &[u8]) -> (r: Vec<u32>)
    ensures
        r@ == stored(kind, data@),
{
    let width: usize = match kind {
        Stored::F64 | Stored::I64 | Stored::U64 => 8,
        Stored::I32 | Stored::U32 => 4,
        Stored::I16 | Stored::U16 => 2,
        Stored::I8 | Stored::U8 | Stored::Bool => 1,
    };
    let n: usize = data.len() / width;
    let mut out: Vec<u32> = Vec::new();
    let mut i: usize = 0;
    while i < n
        invariant
            n == data@.len() / kind.width(),
            i <= n,
            out@.len() == i,
            forall|q: int| 0 <= q < i ==> #[trigger] out@[q] == stored_at(kind, data@, q),
        decreases n - i,
    {
        out.push(stored_value(kind, data, i));
        i += 1;
    }
    assert(out@ =~= stored(kind, data@));
    out
}

/// A signed number differs from the unsigned one of the same bits by the span or not at all, and lies
/// between minus half of the span and half of it.
pub proof fn law_signed_numbers(v: int, span: int)
    requires
        0 <= v < span,
        span % 2 == 0,
    ensures
        -span <= 2 * signed(v, span) < span,
        signed(v, span) == v || signed(v, span) == v - span,
{
}

/// Integers are stored with their least byte first, and those with a sign in two's complement.
pub proof fn law_integers_are_little_endian(data: Seq<u8>, i: int)
    requires
        0 <= i,
    ensures
        ({
            let two = data[2 * i] + 256 * data[2 * i + 1];
            let four = data[4 * i] + 256 * data[4 * i + 1] + 65536 * data[4 * i + 2] + 16777216 * data[4 * i + 3];
            let eight = data[8 * i] + 256 * data[8 * i + 1] + 65536 * data[8 * i + 2] + 16777216 * data[8 * i + 3]
                + 0x1_0000_0000 * (data[8 * i + 4] + 256 * data[8 * i + 5] + 65536 * data[8 * i + 6] + 16777216 * data[8
                * i + 7]);
            &&& integer_at(Stored::U8, data, i) == data[i]
            &&& integer_at(Stored::U16, data, i) == two
            &&& integer_at(Stored::U32, data, i) == four
            &&& integer_at(Stored::U64, data, i) == eight
            &&& integer_at(Stored::I8, data, i) == (if data[i] < 128 { data[i] as int } else { data[i] - 256 })
            &&& integer_at(Stored::I16, data, i) == (if two < 32768 { two } else { two - 65536 })
            &&& integer_at(Stored::I32, data, i) == (if four < 0x8000_0000 { four } else { four - 0x1_0000_0000 })
            &&& integer_at(Stored::I64, data, i) == (if eight < 0x8000_0000_0000_0000 {
                eight
            } else {
                eight - 0x1_0000_0000_0000_0000
            })
            &&& integer_at(Stored::Bool, data, i) == (if data[i] == 0 { 0int } else { 1 })
        }),
{
}

/// Elements are carried over one for one: doubles and integers to the nearest singles.
pub proof fn law_elements_are_carried(kind: Stored, data: Seq<u8>, i: int)
    requires
        0 <= i < stored(kind, data).len(),
    ensures
        stored(Stored::F64, data).len() == data.len() / 8,
        stored(Stored::I64, data).len() == data.len() / 8,
        stored(Stored::U64, data).len() == data.len() / 8,
        stored(Stored::I32, data).len() == data.len() / 4,
        stored(Stored::U32, data).len() == data.len() / 4,
        stored(Stored::I16, data).len() == data.len() / 2,
        stored(Stored::U16, data).len() == data.len() / 2,
        stored(Stored::I8, data).len() == data.len(),
        stored(Stored::U8, data).len() == data.len(),
        stored(Stored::Bool, data).len() == data.len(),
        kind is F64 ==> stored(kind, data)[i] == num::single_of_double(
            (data[8 * i] + 256 * data[8 * i + 1] + 65536 * data[8 * i + 2] + 16777216 * data[8 * i + 3] + 0x1_0000_0000
                * (data[8 * i + 4] + 256 * data[8 * i + 5] + 65536 * data[8 * i + 6] + 16777216 * data[8 * i + 7])) as u64,
        ) as u32,
        !(kind is F64) ==> stored(kind, data)[i] == num::single_of_int(integer_at(kind, data, i)) as u32,
{
}

} // verus!
