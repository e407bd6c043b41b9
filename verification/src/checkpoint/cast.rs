//! Casting tensor data between number formats.
//!
//! Tensor data is little-endian bytes. Where the format already fits, the bytes pass through;
//! otherwise every element goes to single precision, exactly, and from there to the target.

use vstd::prelude::*;

use crate::checkpoint::num;
use crate::text;

verus! {

/// The number format of a checkpoint's tensor.
#[derive(Debug, Clone, Copy, PartialEq, Eq, Structural)]
pub enum SrcDtype {
    F32,
    F16,
    BF16,
}

/// The number format of a written tensor.
#[derive(Debug, Clone, Copy, PartialEq, Eq, Structural)]
pub enum GGMLType {
    F32,
    F16,
    BF16,
    /// Blocks of 32 elements: a half-precision scale and 32 signed bytes.
    Q8_0,
}

/// Why data cannot be cast.
#[derive(Debug, Clone, Copy, PartialEq, Eq, Structural)]
pub enum CastError {
    /// The length is no multiple of four.
    PartialF32,
    /// The length is no multiple of two.
    PartialF16,
    /// The length is no multiple of two.
    PartialBF16,
    /// The number of elements is no multiple of 32.
    PartialBlock { elements: usize },
}

impl CastError {
    /// The error in words.
    pub open spec fn text(self) -> Seq<char> {
        match self {
            CastError::PartialF32 => "f32 data length not divisible by 4"@,
            CastError::PartialF16 => "f16 data length not divisible by 2"@,
            CastError::PartialBF16 => "bf16 data length not divisible by 2"@,
            CastError::PartialBlock { elements } => "Q8_0 requires element count divisible by 32, got "@ + text::decimal(
                elements as nat,
            ),
        }
    }

    /// The error in words.
    pub fn message(self) -> (r: String)
        ensures
            r@ == self.text(),
    {
        match self {
            CastError::PartialF32 => "f32 data length not divisible by 4".to_string(),
            CastError::PartialF16 => "f16 data length not divisible by 2".to_string(),
            CastError::PartialBF16 => "bf16 data length not divisible by 2".to_string(),
            CastError::PartialBlock { elements } => {
                let mut out: String = "Q8_0 requires element count divisible by 32, got ".to_string();
                text::push_decimal(&mut out, elements as u64);
                out
            },
        }
    }
}

/// What a cast gives: finished bytes, or single-precision values that are still to be scaled
/// into blocks.
#[derive(Debug)]
pub enum Cast {
    Bytes(Vec<u8>),
    Blocks(Vec<u32>),
}

impl SrcDtype {
    /// Bytes of one element.
    pub open spec fn width(self) -> nat {
        match self {
            SrcDtype::F32 => 4,
            SrcDtype::F16 | SrcDtype::BF16 => 2,
        }
    }

    /// What is wrong with data whose length is no multiple of an element.
    pub open spec fn partial(self) -> CastError {
        match self {
            SrcDtype::F32 => CastError::PartialF32,
            SrcDtype::F16 => CastError::PartialF16,
            SrcDtype::BF16 => CastError::PartialBF16,
        }
    }

    /// The format's name.
    pub open spec fn text(self) -> Seq<char> {
        match self {
            SrcDtype::F32 => "F32"@,
            SrcDtype::F16 => "F16"@,
            SrcDtype::BF16 => "BF16"@,
        }
    }

    /// Whether data of this format needs no cast to the target.
    pub open spec fn fits(self, dst: GGMLType) -> bool {
        match self {
            SrcDtype::F32 => dst == GGMLType::F32,
            SrcDtype::F16 => dst == GGMLType::F16,
            SrcDtype::BF16 => dst == GGMLType::BF16,
        }
    }

    /// Bytes of one element.
    pub fn bytes_per_elem(self) -> (r: usize)
        ensures
            r == self.width(),
    {
        match self {
            SrcDtype::F32 => 4,
            SrcDtype::F16 | SrcDtype::BF16 => 2,
        }
    }

    /// The format's name.
    pub fn name(self) -> (r: &'static str)
        ensures
            r@ == self.text(),
    {
        match self {
            SrcDtype::F32 => "F32",
            SrcDtype::F16 => "F16",
            SrcDtype::BF16 => "BF16",
        }
    }
}

/// The 16-bit number whose little-endian bytes are `a` and `b`.
pub open spec fn le16(a: u8, b: u8) -> u16 {
    (a + 0x100 * b) as u16
}

/// The 32-bit number whose little-endian bytes are `a`, `b`, `c` and `d`.
pub open spec fn le32(a: u8, b: u8, c: u8, d: u8) -> u32 {
    (a + 0x100 * b + 0x1_0000 * c + 0x100_0000 * d) as u32
}

/// Byte `k` of `v`, the least significant one first.
pub open spec fn byte_of(v: nat, k: nat) -> u8 {
    if k == 0 {
        (v % 0x100) as u8
    } else if k == 1 {
        ((v / 0x100) % 0x100) as u8
    } else if k == 2 {
        ((v / 0x1_0000) % 0x100) as u8
    } else {
        ((v / 0x100_0000) % 0x100) as u8
    }
}

/// The `i`th 16-bit number of data.
pub open spec fn short_at(data: Seq<u8>, i: int) -> u16 {
    le16(data[2 * i], data[2 * i + 1])
}

/// Element `i` of data in the given format, in single precision.
pub open spec fn single_at(data: Seq<u8>, src: SrcDtype, i: int) -> u32 {
    match src {
        SrcDtype::F32 => le32(data[4 * i], data[4 * i + 1], data[4 * i + 2], data[4 * i + 3]),
        SrcDtype::F16 => num::single_of_half(short_at(data, i)),
        SrcDtype::BF16 => (short_at(data, i) as nat * 0x1_0000) as u32,
    }
}

/// The elements of data in the given format, in single precision.
pub open spec fn singles(data: Seq<u8>, src: SrcDtype) -> Seq<u32> {
    Seq::new(data.len() / src.width(), |i: int| single_at(data, src, i))
}

/// The bytes of single-precision numbers.
pub open spec fn single_bytes(vals: Seq<u32>) -> Seq<u8> {
    Seq::new(4 * vals.len(), |i: int| byte_of(vals[i / 4] as nat, (i % 4) as nat))
}

/// The bytes of 16-bit numbers.
pub open spec fn short_bytes(vals: Seq<u16>) -> Seq<u8> {
    Seq::new(2 * vals.len(), |i: int| byte_of(vals[i / 2] as nat, (i % 2) as nat))
}

/// Single-precision numbers in half precision.
pub open spec fn halves(vals: Seq<u32>) -> Seq<u16> {
    vals.map_values(|v: u32| num::half_of(v))
}

/// Single-precision numbers cut to their upper halves.
pub open spec fn uppers(vals: Seq<u32>) -> Seq<u16> {
    vals.map_values(|v: u32| (v / 0x1_0000) as u16)
}

/// The bytes of data cast to a format other than blocks.
pub open spec fn cast_bytes(data: Seq<u8>, src: SrcDtype, dst: GGMLType) -> Seq<u8> {
    if src.fits(dst) {
        data
    } else {
        match dst {
            GGMLType::F16 => short_bytes(halves(singles(data, src))),
            GGMLType::BF16 => short_bytes(uppers(singles(data, src))),
            _ => single_bytes(singles(data, src)),
        }
    }
}

/// The 32-bit number of four bytes.
pub fn read_le32(a: u8, b: u8, c: u8, d: u8) -> (r: u32)
    ensures
        r == le32(a, b, c, d),
{
    a as u32 + 0x100 * (b as u32) + 0x1_0000 * (c as u32) + 0x100_0000 * (d as u32)
}

/// The 16-bit number of two bytes.
pub fn read_le16(a: u8, b: u8) -> (r: u16)
    ensures
        r == le16(a, b),
{
    a as u16 + 0x100 * (b as u16)
}

/// Writing a 32-bit number and reading it gives it back.
pub proof fn law_le32_reads_back(v: u32)
    ensures
        le32(byte_of(v as nat, 0), byte_of(v as nat, 1), byte_of(v as nat, 2), byte_of(v as nat, 3)) == v,
{
}

/// Reading four bytes and writing the number gives them back.
pub proof fn law_le32_writes_back(a: u8, b: u8, c: u8, d: u8)
    ensures
        byte_of(le32(a, b, c, d) as nat, 0) == a,
        byte_of(le32(a, b, c, d) as nat, 1) == b,
        byte_of(le32(a, b, c, d) as nat, 2) == c,
        byte_of(le32(a, b, c, d) as nat, 3) == d,
{
}

/// Appends the bytes of a 32-bit number.
fn push_le32(out: &mut Vec<u8>, v: u32)
    ensures
        final(out)@ == old(out)@ + seq![
            byte_of(v as nat, 0),
            byte_of(v as nat, 1),
            byte_of(v as nat, 2),
            byte_of(v as nat, 3),
        ],
{
    out.push((v % 0x100) as u8);
    out.push(((v / 0x100) % 0x100) as u8);
    out.push(((v / 0x1_0000) % 0x100) as u8);
    out.push(((v / 0x100_0000) % 0x100) as u8);
    assert(out@ =~= old(out)@ + seq![
        byte_of(v as nat, 0),
        byte_of(v as nat, 1),
        byte_of(v as nat, 2),
        byte_of(v as nat, 3),
    ]);
}

/// The bytes of single-precision numbers.
pub fn f32_to_bytes(vals: &[u32]) -> (r: Vec<u8>)
    ensures
        r@ == single_bytes(vals@),
{
    let mut out: Vec<u8> = Vec::new();
    let mut i: usize = 0;
    assert(out@ =~= single_bytes(vals@.subrange(0, 0)));
    while i < vals.len()
        invariant
            i <= vals@.len(),
            out@ == single_bytes(vals@.subrange(0, i as int)),
        decreases vals@.len() - i,
    {
        let ghost before = out@;
        push_le32(&mut out, vals[i]);
        i += 1;
        let ghost upto = vals@.subrange(0, i as int);
        assert(out@ =~= single_bytes(upto)) by {
            assert(out@.len() == 4 * i);
            assert forall|q: int| 0 <= q < out@.len() implies out@[q] == single_bytes(upto)[q] by {
                if q < 4 * (i - 1) {
                    assert(out@[q] == before[q]);
                    assert(q / 4 < i - 1);
                } else {
                    assert(q / 4 == i - 1);
                    let k = q - 4 * (i - 1);
                    assert(q % 4 == k);
                }
            }
        }
    }
    assert(vals@.subrange(0, i as int) =~= vals@);
    out
}

/// The bytes of 16-bit numbers.
pub fn u16_to_bytes(vals: &[u16]) -> (r: Vec<u8>)
    ensures
        r@ == short_bytes(vals@),
{
    let mut out: Vec<u8> = Vec::new();
    let mut i: usize = 0;
    assert(out@ =~= short_bytes(vals@.subrange(0, 0)));
    while i < vals.len()
        invariant
            i <= vals@.len(),
            out@ == short_bytes(vals@.subrange(0, i as int)),
        decreases vals@.len() - i,
    {
        let ghost before = out@;
        out.push((vals[i] % 0x100) as u8);
        out.push((vals[i] / 0x100) as u8);
        i += 1;
        let ghost upto = vals@.subrange(0, i as int);
        assert(out@ =~= short_bytes(upto)) by {
            assert(out@.len() == 2 * i);
            assert forall|q: int| 0 <= q < out@.len() implies out@[q] == short_bytes(upto)[q] by {
                if q < 2 * (i - 1) {
                    assert(out@[q] == before[q]);
                    assert(q / 2 < i - 1);
                } else {
                    assert(q / 2 == i - 1);
                    assert(q % 2 == q - 2 * (i - 1));
                }
            }
        }
    }
    assert(vals@.subrange(0, i as int) =~= vals@);
    out
}

/// The elements of data in single precision.
pub fn decode_to_f32(data: &[u8], src: SrcDtype) -> (r: Result<Vec<u32>, CastError>)
    ensures
        match r {
            Ok(vals) => data@.len() % src.width() == 0 && vals@ == singles(data@, src),
            Err(e) => data@.len() % src.width() != 0 && e == src.partial(),
        },
{
    let n: usize = data.len();
    let mut out: Vec<u32> = Vec::new();
    let mut i: usize = 0;
    match src {
        SrcDtype::F32 => {
            if n % 4 != 0 {
                return Err(CastError::PartialF32);
            }
            while i < n / 4
                invariant
                    n == data@.len(),
                    i <= n / 4,
                    out@.len() == i,
                    forall|q: int| 0 <= q < i ==> #[trigger] out@[q] == single_at(data@, SrcDtype::F32, q),
                decreases n / 4 - i,
            {
                out.push(read_le32(data[4 * i], data[4 * i + 1], data[4 * i + 2], data[4 * i + 3]));
                i += 1;
            }
        },
        SrcDtype::F16 => {
            if n % 2 != 0 {
                return Err(CastError::PartialF16);
            }
            while i < n / 2
                invariant
                    n == data@.len(),
                    i <= n / 2,
                    out@.len() == i,
                    forall|q: int| 0 <= q < i ==> #[trigger] out@[q] == single_at(data@, SrcDtype::F16, q),
                decreases n / 2 - i,
            {
                out.push(num::f16_to_f32(read_le16(data[2 * i], data[2 * i + 1])));
                i += 1;
            }
        },
        SrcDtype::BF16 => {
            if n % 2 != 0 {
                return Err(CastError::PartialBF16);
            }
            while i < n / 2
                invariant
                    n == data@.len(),
                    i <= n / 2,
                    out@.len() == i,
                    forall|q: int| 0 <= q < i ==> #[trigger] out@[q] == single_at(data@, SrcDtype::BF16, q),
                decreases n / 2 - i,
            {
                out.push(read_le16(data[2 * i], data[2 * i + 1]) as u32 * 0x1_0000);
                i += 1;
            }
        },
    }
    assert(out@ =~= singles(data@, src));
    Ok(out)
}

/// The same bytes.
pub fn copy_bytes(data: &[u8]) -> (r: Vec<u8>)
    ensures
        r@ == data@,
{
    let mut out: Vec<u8> = Vec::new();
    out.extend_from_slice(data);
    assert(out@ =~= data@);
    out
}

/// What a cast to the target gives.
pub open spec fn cast_to(data: Seq<u8>, src: SrcDtype, dst: GGMLType, c: Cast) -> bool {
    match c {
        Cast::Bytes(b) => dst != GGMLType::Q8_0 && b@ == cast_bytes(data, src, dst),
        Cast::Blocks(v) => dst == GGMLType::Q8_0 && v@ == singles(data, src),
    }
}

/// Whether data can be cast to the target.
pub open spec fn castable(data: Seq<u8>, src: SrcDtype, dst: GGMLType) -> bool {
    &&& src.fits(dst) || data.len() % src.width() == 0
    &&& dst == GGMLType::Q8_0 ==> singles(data, src).len() % 32 == 0
}

/// Why data cannot be cast.
pub open spec fn failure(data: Seq<u8>, src: SrcDtype) -> CastError {
    if data.len() % src.width() != 0 {
        src.partial()
    } else {
        CastError::PartialBlock { elements: singles(data, src).len() as usize }
    }
}

/// Casts data to the target format.
pub fn cast_data(data: &[u8], src: SrcDtype, dst: GGMLType) -> (r: Result<Cast, CastError>)
    ensures
        match r {
            Ok(c) => castable(data@, src, dst) && cast_to(data@, src, dst, c),
            Err(e) => !castable(data@, src, dst) && e == failure(data@, src),
        },
{
    match (src, dst) {
        (SrcDtype::F32, GGMLType::F32) | (SrcDtype::F16, GGMLType::F16) | (SrcDtype::BF16, GGMLType::BF16) => {
            return Ok(Cast::Bytes(copy_bytes(data)));
        },
        _ => {},
    }
    let vals: Vec<u32> = match decode_to_f32(data, src) {
        Ok(v) => v,
        Err(e) => return Err(e),
    };
    match dst {
        GGMLType::F32 => Ok(Cast::Bytes(f32_to_bytes(vals.as_slice()))),
        GGMLType::F16 => {
            let mut out: Vec<u16> = Vec::new();
            let mut i: usize = 0;
            while i < vals.len()
                invariant
                    i <= vals@.len(),
                    out@.len() == i,
                    forall|q: int| 0 <= q < i ==> #[trigger] out@[q] == num::half_of(vals@[q]),
                decreases vals@.len() - i,
            {
                out.push(num::f32_to_f16_bits(vals[i]));
                i += 1;
            }
            assert(out@ =~= halves(vals@));
            Ok(Cast::Bytes(u16_to_bytes(out.as_slice())))
        },
        GGMLType::BF16 => {
            let mut out: Vec<u16> = Vec::new();
            let mut i: usize = 0;
            while i < vals.len()
                invariant
                    i <= vals@.len(),
                    out@.len() == i,
                    forall|q: int| 0 <= q < i ==> #[trigger] out@[q] == (vals@[q] / 0x1_0000) as u16,
                decreases vals@.len() - i,
            {
                out.push((vals[i] / 0x1_0000) as u16);
                i += 1;
            }
            assert(out@ =~= uppers(vals@));
            Ok(Cast::Bytes(u16_to_bytes(out.as_slice())))
        },
        GGMLType::Q8_0 => {
            if vals.len() % 32 != 0 {
                return Err(CastError::PartialBlock { elements: vals.len() });
            }
            Ok(Cast::Blocks(vals))
        },
    }
}

/// The bytes of blocks: the scale of each in half precision, and its 32 elements.
pub open spec fn block_bytes(scales: Seq<u32>, quants: Seq<u8>) -> Seq<u8> {
    Seq::new(
        34 * scales.len(),
        |i: int|
            if i % 34 < 2 {
                byte_of(num::half_of(scales[i / 34]) as nat, (i % 34) as nat)
            } else {
                quants[32 * (i / 34) + (i % 34 - 2)]
            },
    )
}

/// Lays out blocks: for each its scale, given in single precision, and its 32 elements.
pub fn pack_q8_0(scales: &[u32], quants: &[u8]) -> (r: Vec<u8>)
    requires
        quants@.len() == 32 * scales@.len(),
    ensures
        r@ == block_bytes(scales@, quants@),
{
    let mut out: Vec<u8> = Vec::new();
    let n: usize = quants.len();
    let mut b: usize = 0;
    while b < scales.len()
        invariant
            b <= scales@.len(),
            n == quants@.len(),
            quants@.len() == 32 * scales@.len(),
            out@.len() == 34 * b,
            forall|q: int| 0 <= q < out@.len() ==> #[trigger] out@[q] == block_bytes(scales@, quants@)[q],
        decreases scales@.len() - b,
    {
        let ghost before = out@;
        let h: u16 = num::f32_to_f16_bits(scales[b]);
        out.push((h % 0x100) as u8);
        out.push((h / 0x100) as u8);
        let mut i: usize = 0;
        assert forall|q: int| 0 <= q < out@.len() implies #[trigger] out@[q] == block_bytes(scales@, quants@)[q] by {
            if q < before.len() {
                assert(out@[q] == before[q]);
            } else {
                assert(q / 34 == b && q % 34 == q - 34 * b);
            }
        }
        while i < 32
            invariant
                i <= 32,
                b < scales@.len(),
                n == quants@.len(),
                quants@.len() == 32 * scales@.len(),
                out@.len() == 34 * b + 2 + i,
                forall|q: int| 0 <= q < out@.len() ==> #[trigger] out@[q] == block_bytes(scales@, quants@)[q],
            decreases 32 - i,
        {
            let ghost at = out@.len() as int;
            out.push(quants[32 * b + i]);
            i += 1;
            assert(at / 34 == b && at % 34 == 2 + (i - 1));
        }
        b += 1;
    }
    assert(out@ =~= block_bytes(scales@, quants@));
    out
}

/// Single-precision data survives being read and written.
pub proof fn law_singles_round_trip(data: Seq<u8>)
    requires
        data.len() % 4 == 0,
    ensures
        single_bytes(singles(data, SrcDtype::F32)) == data,
{
    let vals = singles(data, SrcDtype::F32);
    assert forall|i: int| 0 <= i < data.len() implies single_bytes(vals)[i] == data[i] by {
        let q = i / 4;
        law_le32_writes_back(data[4 * q], data[4 * q + 1], data[4 * q + 2], data[4 * q + 3]);
        assert(vals[q] == le32(data[4 * q], data[4 * q + 1], data[4 * q + 2], data[4 * q + 3]));
        assert(i == 4 * q + i % 4);
    }
    assert(single_bytes(vals) =~= data);
}

/// Bfloat data widened to single precision and cut back is unchanged.
pub proof fn law_bfloat_round_trip(data: Seq<u8>)
    requires
        data.len() % 2 == 0,
    ensures
        cast_bytes(cast_bytes(data, SrcDtype::BF16, GGMLType::F32), SrcDtype::F32, GGMLType::BF16) == data,
{
    let vals = singles(data, SrcDtype::BF16);
    lemma_written_singles(vals);
    let cut = uppers(vals);
    assert forall|q: int| 0 <= q < cut.len() implies #[trigger] cut[q] == short_at(data, q) by {
        let h = short_at(data, q);
        assert(vals[q] == (h as nat * 0x1_0000) as u32);
    }
    lemma_written_shorts(data, cut);
}

/// Half-precision data that holds no NaN, widened to single precision and narrowed again, is
/// unchanged.
pub proof fn law_half_data_round_trip(data: Seq<u8>)
    requires
        data.len() % 2 == 0,
        forall|q: int| 0 <= q < data.len() / 2 ==> !num::half_nan(#[trigger] short_at(data, q)),
    ensures
        cast_bytes(cast_bytes(data, SrcDtype::F16, GGMLType::F32), SrcDtype::F32, GGMLType::F16) == data,
{
    let vals = singles(data, SrcDtype::F16);
    lemma_written_singles(vals);
    let cut = halves(vals);
    assert forall|q: int| 0 <= q < cut.len() implies #[trigger] cut[q] == short_at(data, q) by {
        num::law_half_round_trip(short_at(data, q));
    }
    lemma_written_shorts(data, cut);
}

proof fn lemma_written_shorts(data: Seq<u8>, vals: Seq<u16>)
    requires
        data.len() == 2 * vals.len(),
        forall|q: int| 0 <= q < vals.len() ==> #[trigger] vals[q] == short_at(data, q),
    ensures
        short_bytes(vals) == data,
{
    assert forall|i: int| 0 <= i < data.len() implies #[trigger] short_bytes(vals)[i] == data[i] by {
        let q = i / 2;
        assert(vals[q] == short_at(data, q));
        assert(i == 2 * q + i % 2);
    }
    assert(short_bytes(vals) =~= data);
}

proof fn lemma_written_singles(vals: Seq<u32>)
    ensures
        singles(single_bytes(vals), SrcDtype::F32) == vals,
{
    let bytes = single_bytes(vals);
    assert(bytes.len() / 4 == vals.len());
    assert forall|q: int| 0 <= q < vals.len() implies singles(bytes, SrcDtype::F32)[q] == vals[q] by {
        law_le32_reads_back(vals[q]);
        assert((4 * q) / 4 == q && (4 * q) % 4 == 0);
        assert((4 * q + 1) / 4 == q && (4 * q + 1) % 4 == 1);
        assert((4 * q + 2) / 4 == q && (4 * q + 2) % 4 == 2);
        assert((4 * q + 3) / 4 == q && (4 * q + 3) % 4 == 3);
    }
    assert(singles(bytes, SrcDtype::F32) =~= vals);
}

/// Every block is read back from its own 34 bytes: the half at its start is the block's own scale, and
/// the 32 bytes after it are its own elements.
pub proof fn law_blocks_read_back(scales: Seq<u32>, quants: Seq<u8>, b: int)
    requires
        quants.len() == 32 * scales.len(),
        0 <= b < scales.len(),
    ensures
        block_bytes(scales, quants).len() == 34 * scales.len(),
        block_bytes(scales, quants)[34 * b] + 256 * block_bytes(scales, quants)[34 * b + 1] == num::half_of(scales[b]),
        block_bytes(scales, quants).subrange(34 * b + 2, 34 * b + 34) == quants.subrange(32 * b, 32 * b + 32),
{
    let r = block_bytes(scales, quants);
    assert((34 * b) / 34 == b && (34 * b) % 34 == 0);
    assert((34 * b + 1) / 34 == b && (34 * b + 1) % 34 == 1);
    assert forall|i: int| 0 <= i < 32 implies #[trigger] r.subrange(34 * b + 2, 34 * b + 34)[i] == quants.subrange(
        32 * b,
        32 * b + 32,
    )[i] by {
        assert((34 * b + 2 + i) / 34 == b && (34 * b + 2 + i) % 34 == 2 + i);
    }
    assert(r.subrange(34 * b + 2, 34 * b + 34) =~= quants.subrange(32 * b, 32 * b + 32));
}

/// Numbers are written with their least byte first.
pub proof fn law_numbers_are_little_endian(vals: Seq<u32>, shorts: Seq<u16>, i: int)
    ensures
        single_bytes(vals).len() == 4 * vals.len(),
        short_bytes(shorts).len() == 2 * shorts.len(),
        0 <= i < vals.len() ==> ({
            let b = single_bytes(vals);
            b[4 * i] + 256 * b[4 * i + 1] + 65536 * b[4 * i + 2] + 16777216 * b[4 * i + 3] == vals[i]
        }),
        0 <= i < shorts.len() ==> short_bytes(shorts)[2 * i] + 256 * short_bytes(shorts)[2 * i + 1] == shorts[i],
{
    if 0 <= i < vals.len() {
        assert((4 * i) / 4 == i && (4 * i) % 4 == 0);
        assert((4 * i + 1) / 4 == i && (4 * i + 1) % 4 == 1);
        assert((4 * i + 2) / 4 == i && (4 * i + 2) % 4 == 2);
        assert((4 * i + 3) / 4 == i && (4 * i + 3) % 4 == 3);
    }
    if 0 <= i < shorts.len() {
        assert((2 * i) / 2 == i && (2 * i) % 2 == 0);
        assert((2 * i + 1) / 2 == i && (2 * i + 1) % 2 == 1);
    }
}

/// Element `i` of a tensor's bytes: four bytes are a single; two are the upper half of one, or a half
/// that is widened.
pub proof fn law_elements_are_read(data: Seq<u8>, i: int)
    requires
        0 <= i,
    ensures
        4 * i + 3 < data.len() ==> {
            &&& i < singles(data, SrcDtype::F32).len()
            &&& singles(data, SrcDtype::F32)[i] == data[4 * i] + 256 * data[4 * i + 1] + 65536 * data[4 * i + 2]
                + 16777216 * data[4 * i + 3]
        },
        2 * i + 1 < data.len() ==> {
            &&& i < singles(data, SrcDtype::BF16).len()
            &&& i < singles(data, SrcDtype::F16).len()
            &&& singles(data, SrcDtype::BF16)[i] == 65536 * (data[2 * i] + 256 * data[2 * i + 1])
            &&& singles(data, SrcDtype::F16)[i] == num::single_of_half((data[2 * i] + 256 * data[2 * i + 1]) as u16)
        },
        singles(data, SrcDtype::F32).len() == data.len() / 4,
        singles(data, SrcDtype::BF16).len() == data.len() / 2,
        singles(data, SrcDtype::F16).len() == data.len() / 2,
{
}

/// A tensor that has the format already keeps its bytes.
pub proof fn law_same_format_keeps_bytes(data: Seq<u8>)
    ensures
        cast_bytes(data, SrcDtype::F32, GGMLType::F32) == data,
        cast_bytes(data, SrcDtype::F16, GGMLType::F16) == data,
        cast_bytes(data, SrcDtype::BF16, GGMLType::BF16) == data,
{
}

/// Element by element, a tensor is cast to singles as it is read, to halves by rounding each to a half,
/// and to the upper halves of its singles.
pub proof fn law_cast_element_by_element(data: Seq<u8>, src: SrcDtype, i: int)
    requires
        0 <= i < singles(data, src).len(),
    ensures
        src != SrcDtype::F32 ==> ({
            let b = cast_bytes(data, src, GGMLType::F32);
            b.len() == 4 * singles(data, src).len() && b[4 * i] + 256 * b[4 * i + 1] + 65536 * b[4 * i + 2] + 16777216
                * b[4 * i + 3] == singles(data, src)[i]
        }),
        src != SrcDtype::F16 ==> ({
            let b = cast_bytes(data, src, GGMLType::F16);
            b.len() == 2 * singles(data, src).len() && b[2 * i] + 256 * b[2 * i + 1] == num::half_of(
                singles(data, src)[i],
            )
        }),
        src != SrcDtype::BF16 ==> ({
            let b = cast_bytes(data, src, GGMLType::BF16);
            b.len() == 2 * singles(data, src).len() && b[2 * i] + 256 * b[2 * i + 1] == singles(data, src)[i] / 65536
        }),
{
    let v = singles(data, src);
    law_numbers_are_little_endian(v, halves(v), i);
    law_numbers_are_little_endian(v, uppers(v), i);
}

/// A tensor can be cast where its bytes are whole elements, and to blocks where those are whole blocks
/// of 32; one that has the format already is not looked at.
pub proof fn law_what_can_be_cast(data: Seq<u8>, src: SrcDtype)
    ensures
        src == SrcDtype::F32 ==> (castable(data, src, GGMLType::F16) <==> data.len() % 4 == 0),
        src == SrcDtype::F32 ==> (castable(data, src, GGMLType::BF16) <==> data.len() % 4 == 0),
        src == SrcDtype::F32 ==> (castable(data, src, GGMLType::Q8_0) <==> data.len() % 128 == 0),
        src == SrcDtype::F32 ==> castable(data, src, GGMLType::F32),
        src != SrcDtype::F32 ==> (castable(data, src, GGMLType::F32) <==> data.len() % 2 == 0),
        src != SrcDtype::F32 ==> (castable(data, src, GGMLType::Q8_0) <==> data.len() % 64 == 0),
        src == SrcDtype::F16 ==> castable(data, src, GGMLType::F16),
        src == SrcDtype::F16 ==> (castable(data, src, GGMLType::BF16) <==> data.len() % 2 == 0),
        src == SrcDtype::BF16 ==> castable(data, src, GGMLType::BF16),
        src == SrcDtype::BF16 ==> (castable(data, src, GGMLType::F16) <==> data.len() % 2 == 0),
{
}

/// What is wrong with a tensor that cannot be cast: bytes left over, or elements left over.
pub proof fn law_why_not_cast(data: Seq<u8>, src: SrcDtype, dst: GGMLType)
    requires
        !castable(data, src, dst),
        data.len() <= usize::MAX,
    ensures
        src == SrcDtype::F32 && data.len() % 4 != 0 ==> failure(data, src) == CastError::PartialF32,
        src == SrcDtype::F16 && data.len() % 2 != 0 ==> failure(data, src) == CastError::PartialF16,
        src == SrcDtype::BF16 && data.len() % 2 != 0 ==> failure(data, src) == CastError::PartialBF16,
        src == SrcDtype::F32 && data.len() % 4 == 0 ==> (failure(data, src) matches CastError::PartialBlock { elements }
            && elements == data.len() / 4 && elements % 32 != 0),
        src != SrcDtype::F32 && data.len() % 2 == 0 ==> (failure(data, src) matches CastError::PartialBlock { elements }
            && elements == data.len() / 2 && elements % 32 != 0),
{
}

/// How errors and formats are worded.
pub proof fn law_errors_are_worded(elements: usize)
    ensures
        CastError::PartialF32.text() == "f32 data length not divisible by 4"@,
        CastError::PartialF16.text() == "f16 data length not divisible by 2"@,
        CastError::PartialBF16.text() == "bf16 data length not divisible by 2"@,
        SrcDtype::F32.text() == "F32"@,
        SrcDtype::F16.text() == "F16"@,
        SrcDtype::BF16.text() == "BF16"@,
        (CastError::PartialBlock { elements }).text() == "Q8_0 requires element count divisible by 32, got "@ + text::decimal(
            elements as nat,
        ),
{
}

} // verus!
