//! Reading the protobuf wire format.
//!
//! A message is a run of fields. A field is a tag, which gives its number and the form of its
//! value, followed by the value: a variable-length integer, four or eight bytes, or a length and
//! that many bytes.

use vstd::arithmetic::div_mod;
use vstd::arithmetic::power2;
use vstd::prelude::*;

use crate::checkpoint::cast;
use crate::text;

verus! {

/// Why bytes are no message.
#[derive(Debug, Clone, Copy, PartialEq, Eq, Structural)]
pub enum ProtoError {
    TruncatedVarint,
    VarintTooLong,
    TruncatedBytes,
    TruncatedFixed32,
    TruncatedFixed64,
    UnsupportedWireType { wire_type: u8 },
}

impl ProtoError {
    /// The error in words.
    pub open spec fn text(self) -> Seq<char> {
        match self {
            ProtoError::TruncatedVarint => "protobuf: truncated varint"@,
            ProtoError::VarintTooLong => "protobuf: varint too long"@,
            ProtoError::TruncatedBytes => "protobuf: truncated length-delimited field"@,
            ProtoError::TruncatedFixed32 => "protobuf: truncated fixed32"@,
            ProtoError::TruncatedFixed64 => "protobuf: truncated fixed64"@,
            ProtoError::UnsupportedWireType { wire_type } => "protobuf: unsupported wire type "@ + text::decimal(
                wire_type as nat,
            ),
        }
    }

    /// The error in words.
    pub fn message(self) -> (r: String)
        ensures
            r@ == self.text(),
    {
        match self {
            ProtoError::TruncatedVarint => "protobuf: truncated varint".to_string(),
            ProtoError::VarintTooLong => "protobuf: varint too long".to_string(),
            ProtoError::TruncatedBytes => "protobuf: truncated length-delimited field".to_string(),
            ProtoError::TruncatedFixed32 => "protobuf: truncated fixed32".to_string(),
            ProtoError::TruncatedFixed64 => "protobuf: truncated fixed64".to_string(),
            ProtoError::UnsupportedWireType { wire_type } => {
                let digits: String = text::decimal_text(wire_type as u64);
                text::join2("protobuf: unsupported wire type ", digits.as_str())
            },
        }
    }
}

/// The value of a field.
pub enum Value {
    Varint(u64),
    Fixed64(u64),
    Bytes(Seq<u8>),
    Fixed32(u32),
}

/// A field of a message.
pub struct Field {
    pub number: u64,
    pub value: Value,
}

/// A value that was read.
pub enum Read<'a> {
    Varint(u64),
    Fixed64(u64),
    Bytes(&'a [u8]),
    Fixed32(u32),
}

impl<'a> View for Read<'a> {
    type V = Value;

    open spec fn view(&self) -> Value {
        match *self {
            Read::Varint(v) => Value::Varint(v),
            Read::Fixed64(v) => Value::Fixed64(v),
            Read::Bytes(s) => Value::Bytes(s@),
            Read::Fixed32(v) => Value::Fixed32(v),
        }
    }
}

/// How many bytes at the start of `b` say that another one follows.
pub open spec fn continued(b: Seq<u8>) -> nat
    decreases b.len(),
{
    if b.len() == 0 || b[0] < 128 {
        0
    } else {
        1 + continued(b.skip(1))
    }
}

/// The number whose groups of seven bits, the least significant first, are in the first `n` bytes.
pub open spec fn groups(b: Seq<u8>, n: nat) -> nat
    decreases n,
{
    if n == 0 {
        0
    } else {
        groups(b, (n - 1) as nat) + (b[n - 1] % 128) as nat * power2::pow2((7 * (n - 1)) as nat)
    }
}

/// The variable-length integer at the start of `b`, modulo 2^64, and its length in bytes.
pub open spec fn varint(b: Seq<u8>) -> Result<(u64, nat), ProtoError> {
    let n = continued(b);
    if n >= 11 {
        Err(ProtoError::VarintTooLong)
    } else if n >= b.len() {
        Err(ProtoError::TruncatedVarint)
    } else {
        Ok(((groups(b, n + 1) % 0x1_0000_0000_0000_0000) as u64, n + 1))
    }
}

/// How many bytes are gone once no variable-length integer could be read: all there are, but no more
/// than eleven.
pub open spec fn varint_gone(b: Seq<u8>) -> nat {
    if b.len() < 11 {
        b.len()
    } else {
        11
    }
}

/// The 64-bit number whose little-endian bytes start at `i`.
pub open spec fn le64_at(b: Seq<u8>, i: int) -> u64 {
    (cast::le32(b[i], b[i + 1], b[i + 2], b[i + 3]) + 0x1_0000_0000 * cast::le32(
        b[i + 4],
        b[i + 5],
        b[i + 6],
        b[i + 7],
    )) as u64
}

/// The 32-bit number whose little-endian bytes start at `i`.
pub open spec fn le32_at(b: Seq<u8>, i: int) -> u32 {
    cast::le32(b[i], b[i + 1], b[i + 2], b[i + 3])
}

/// The 32-bit number at the start of `b`.
pub open spec fn fixed32(b: Seq<u8>) -> Result<(u32, nat), ProtoError> {
    if b.len() < 4 {
        Err(ProtoError::TruncatedFixed32)
    } else {
        Ok((le32_at(b, 0), 4))
    }
}

/// The 64-bit number at the start of `b`.
pub open spec fn fixed64(b: Seq<u8>) -> Result<(u64, nat), ProtoError> {
    if b.len() < 8 {
        Err(ProtoError::TruncatedFixed64)
    } else {
        Ok((le64_at(b, 0), 8))
    }
}

/// The bytes at the start of `b` behind their length, and the length of both.
pub open spec fn delimited(b: Seq<u8>) -> Result<(Seq<u8>, nat), ProtoError> {
    match varint(b) {
        Err(e) => Err(e),
        Ok((len, n)) => if len > b.len() - n {
            Err(ProtoError::TruncatedBytes)
        } else {
            Ok((b.subrange(n as int, n + len), n + len as nat))
        },
    }
}

/// How many bytes are gone once no length and bytes could be read: those of the length.
pub open spec fn delimited_gone(b: Seq<u8>) -> nat {
    match varint(b) {
        Err(_) => varint_gone(b),
        Ok((_, n)) => n,
    }
}

/// The value at the start of `b` in the form that a tag names, and its length.
pub open spec fn value(wire_type: u8, b: Seq<u8>) -> Result<(Value, nat), ProtoError> {
    if wire_type == 0 {
        match varint(b) {
            Ok((v, n)) => Ok((Value::Varint(v), n)),
            Err(e) => Err(e),
        }
    } else if wire_type == 1 {
        match fixed64(b) {
            Ok((v, n)) => Ok((Value::Fixed64(v), n)),
            Err(e) => Err(e),
        }
    } else if wire_type == 2 {
        match delimited(b) {
            Ok((v, n)) => Ok((Value::Bytes(v), n)),
            Err(e) => Err(e),
        }
    } else if wire_type == 5 {
        match fixed32(b) {
            Ok((v, n)) => Ok((Value::Fixed32(v), n)),
            Err(e) => Err(e),
        }
    } else {
        Err(ProtoError::UnsupportedWireType { wire_type })
    }
}

/// How many bytes are gone once no value could be read: none of a number of fixed length, nor of a form
/// that there is not.
pub open spec fn value_gone(wire_type: u8, b: Seq<u8>) -> nat {
    if wire_type == 0 {
        varint_gone(b)
    } else if wire_type == 2 {
        delimited_gone(b)
    } else {
        0
    }
}

/// How many bytes are gone once no field could be read.
pub open spec fn field_gone(b: Seq<u8>) -> nat {
    match varint(b) {
        Err(_) => varint_gone(b),
        Ok((tag, n)) => n + value_gone((tag % 8) as u8, b.skip(n as int)),
    }
}

/// The field at the start of `b`, and its length.
#[verifier::opaque]
pub open spec fn field(b: Seq<u8>) -> Result<(Field, nat), ProtoError> {
    match varint(b) {
        Err(e) => Err(e),
        Ok((tag, n)) => match value((tag % 8) as u8, b.skip(n as int)) {
            Err(e) => Err(e),
            Ok((v, m)) => Ok((Field { number: tag / 8, value: v }, n + m)),
        },
    }
}

/// Every item takes at least one byte and none beyond the end.
pub proof fn lemma_lengths(b: Seq<u8>)
    ensures
        continued(b) <= b.len(),
        varint(b) matches Ok((_, n)) ==> 1 <= n <= b.len(),
        delimited(b) matches Ok((_, n)) ==> 1 <= n <= b.len(),
        field(b) matches Ok((_, n)) ==> 1 <= n <= b.len(),
    decreases b.len(), 1int,
{
    reveal(field);
    lemma_continued(b);
    if let Ok((tag, n)) = varint(b) {
        let rest = b.skip(n as int);
        lemma_continued(rest);
    }
}

proof fn lemma_continued(b: Seq<u8>)
    ensures
        continued(b) <= b.len(),
    decreases b.len(),
{
    if b.len() > 0 && b[0] >= 128 {
        lemma_continued(b.skip(1));
    }
}

/// Where the byte at which a run of continued bytes stops is known, so is the run's length.
proof fn lemma_run(b: Seq<u8>, n: nat)
    requires
        n <= b.len(),
        forall|i: int| 0 <= i < n ==> b[i] >= 128,
    ensures
        continued(b) >= n,
        n == b.len() || b[n as int] < 128 ==> continued(b) == n,
    decreases n,
{
    if n > 0 {
        assert(b[0] >= 128);
        let rest = b.skip(1);
        assert forall|i: int| 0 <= i < n - 1 implies rest[i] >= 128 by {
            assert(rest[i] == b[i + 1]);
        }
        lemma_run(rest, (n - 1) as nat);
        assert(n < b.len() ==> rest[n - 1] == b[n as int]);
    }
}

proof fn lemma_groups_bound(b: Seq<u8>, n: nat)
    ensures
        groups(b, n) < power2::pow2(7 * n),
    decreases n,
{
    power2::lemma2_to64();
    if n > 0 {
        lemma_groups_bound(b, (n - 1) as nat);
        power2::lemma_pow2_adds((7 * (n - 1)) as nat, 7);
        let p = power2::pow2((7 * (n - 1)) as nat);
        let d = (b[n - 1] % 128) as nat;
        assert(groups(b, (n - 1) as nat) + d * p < p * 128) by (nonlinear_arith)
            requires
                groups(b, (n - 1) as nat) < p,
                d <= 127,
        ;
    }
}

/// A reader at a position of some bytes.
pub struct ProtoReader<'a> {
    buf: &'a [u8],
    pos: usize,
}

impl<'a> ProtoReader<'a> {
    /// All the bytes.
    pub closed spec fn bytes(&self) -> Seq<u8> {
        self.buf@
    }

    /// How many bytes were read.
    pub closed spec fn at(&self) -> nat {
        self.pos as nat
    }

    /// The bytes still to be read.
    pub open spec fn rest(&self) -> Seq<u8> {
        self.bytes().skip(self.at() as int)
    }

    /// The position is one of the bytes.
    pub open spec fn wf(&self) -> bool {
        self.at() <= self.bytes().len()
    }

    /// The reader after `n` more bytes.
    pub open spec fn advanced(&self, from: Self, n: nat) -> bool {
        self.wf() && self.bytes() == from.bytes() && self.at() == from.at() + n
    }

    /// A reader at the start.
    pub fn new(buf: &'a [u8]) -> (r: Self)
        ensures
            r.wf(),
            r.at() == 0,
            r.bytes() == buf@,
            r.rest() == buf@,
    {
        let r = ProtoReader { buf, pos: 0 };
        assert(r.rest() =~= buf@);
        r
    }

    /// Whether all was read.
    pub fn done(&self) -> (r: bool)
        requires
            self.wf(),
        ensures
            r == (self.rest().len() == 0),
    {
        self.pos >= self.buf.len()
    }

    /// Reads a variable-length integer.
    pub fn read_varint(&mut self) -> (r: Result<u64, ProtoError>)
        requires
            old(self).wf(),
        ensures
            final(self).wf(),
            match varint(old(self).rest()) {
                Ok((v, n)) => r == Ok::<u64, ProtoError>(v) && final(self).advanced(*old(self), n),
                Err(e) => r == Err::<u64, ProtoError>(e) && final(self).advanced(
                    *old(self),
                    varint_gone(old(self).rest()),
                ),
            },
    {
        let ghost b = self.rest();
        let start: usize = self.pos;
        let mut total: u64 = 0;
        let mut scale: u64 = 1;
        let mut i: usize = 0;
        proof {
            power2::lemma2_to64();
        }
        while self.pos < self.buf.len()
            invariant
                i <= 10,
                start + i == self.pos,
                self.pos <= self.buf@.len(),
                b == self.buf@.skip(start as int),
                self.buf == old(self).buf,
                start == old(self).pos,
                old(self).wf(),
                b == old(self).rest(),
                forall|q: int| 0 <= q < i ==> b[q] >= 128,
                i <= 9 ==> scale == power2::pow2((7 * i) as nat) && total == groups(b, i as nat),
                total == groups(b, i as nat) % 0x1_0000_0000_0000_0000,
            decreases self.buf@.len() - self.pos,
        {
            let byte: u8 = self.buf[self.pos];
            assert(byte == b[i as int]);
            let group: u64 = (byte % 128) as u64;
            self.pos += 1;
            proof {
                power2::lemma2_to64();
                power2::lemma2_to64_rest();
                lemma_groups_bound(b, i as nat);
                if i < 9 {
                    lemma_step(scale, group, total, i as nat);
                }
                lemma_top_groups(b, i as nat);
            }
            if i < 9 {
                total = total + group * scale;
                if i < 8 {
                    scale = scale * 128;
                } else {
                    scale = 0x8000_0000_0000_0000;
                }
            } else if i == 9 {
                total = total + (group % 2) * 0x8000_0000_0000_0000;
            }
            if byte < 128 {
                proof {
                    lemma_run(b, i as nat);
                }
                return Ok(total);
            }
            if i == 10 {
                proof {
                    lemma_run(b, 11);
                }
                return Err(ProtoError::VarintTooLong);
            }
            i += 1;
        }
        proof {
            lemma_run(b, i as nat);
        }
        Err(ProtoError::TruncatedVarint)
    }

    /// Reads a tag: the field's number and the form of its value.
    pub fn read_tag(&mut self) -> (r: Result<(u64, u8), ProtoError>)
        requires
            old(self).wf(),
        ensures
            final(self).wf(),
            match varint(old(self).rest()) {
                Ok((tag, n)) => r == Ok::<(u64, u8), ProtoError>((tag / 8, (tag % 8) as u8)) && final(self).advanced(
                    *old(self),
                    n,
                ),
                Err(e) => r == Err::<(u64, u8), ProtoError>(e) && final(self).advanced(
                    *old(self),
                    varint_gone(old(self).rest()),
                ),
            },
    {
        match self.read_varint() {
            Ok(tag) => Ok((tag / 8, (tag % 8) as u8)),
            Err(e) => Err(e),
        }
    }

    /// Reads a length and that many bytes.
    pub fn read_len_delimited(&mut self) -> (r: Result<&'a [u8], ProtoError>)
        requires
            old(self).wf(),
        ensures
            final(self).wf(),
            match delimited(old(self).rest()) {
                Ok((v, n)) => r matches Ok(s) && s@ == v && final(self).advanced(*old(self), n),
                Err(e) => r matches Err(f) && f == e && final(self).advanced(
                    *old(self),
                    delimited_gone(old(self).rest()),
                ),
            },
    {
        let ghost b = self.rest();
        proof {
            lemma_lengths(b);
        }
        let len: u64 = match self.read_varint() {
            Ok(len) => len,
            Err(e) => return Err(e),
        };
        let left: usize = self.buf.len() - self.pos;
        if len > left as u64 {
            return Err(ProtoError::TruncatedBytes);
        }
        let end: usize = self.pos + len as usize;
        let s = vstd::slice::slice_subrange(self.buf, self.pos, end);
        assert(s@ =~= b.subrange((self.pos - old(self).pos) as int, end - old(self).pos));
        self.pos = end;
        Ok(s)
    }

    /// Reads four bytes.
    pub fn read_fixed32(&mut self) -> (r: Result<u32, ProtoError>)
        requires
            old(self).wf(),
        ensures
            final(self).wf(),
            match fixed32(old(self).rest()) {
                Ok((v, n)) => r == Ok::<u32, ProtoError>(v) && final(self).advanced(*old(self), n),
                Err(e) => r == Err::<u32, ProtoError>(e) && final(self).advanced(*old(self), 0),
            },
    {
        if self.buf.len() - self.pos < 4 {
            return Err(ProtoError::TruncatedFixed32);
        }
        let p: usize = self.pos;
        let v: u32 = cast::read_le32(self.buf[p], self.buf[p + 1], self.buf[p + 2], self.buf[p + 3]);
        self.pos = p + 4;
        Ok(v)
    }

    /// Reads eight bytes.
    pub fn read_fixed64(&mut self) -> (r: Result<u64, ProtoError>)
        requires
            old(self).wf(),
        ensures
            final(self).wf(),
            match fixed64(old(self).rest()) {
                Ok((v, n)) => r == Ok::<u64, ProtoError>(v) && final(self).advanced(*old(self), n),
                Err(e) => r == Err::<u64, ProtoError>(e) && final(self).advanced(*old(self), 0),
            },
    {
        if self.buf.len() - self.pos < 8 {
            return Err(ProtoError::TruncatedFixed64);
        }
        let p: usize = self.pos;
        let v: u64 = read_le64(self.buf, p);
        assert(v == le64_at(self.rest(), 0));
        self.pos = p + 8;
        Ok(v)
    }

    /// Reads a value of the given form.
    pub fn read_value(&mut self, wire_type: u8) -> (r: Result<Read<'a>, ProtoError>)
        requires
            old(self).wf(),
        ensures
            final(self).wf(),
            match value(wire_type, old(self).rest()) {
                Ok((v, n)) => r matches Ok(w) && w@ == v && final(self).advanced(*old(self), n),
                Err(e) => r matches Err(f) && f == e && final(self).advanced(
                    *old(self),
                    value_gone(wire_type, old(self).rest()),
                ),
            },
    {
        match wire_type {
            0 => match self.read_varint() {
                Ok(v) => Ok(Read::Varint(v)),
                Err(e) => Err(e),
            },
            1 => match self.read_fixed64() {
                Ok(v) => Ok(Read::Fixed64(v)),
                Err(e) => Err(e),
            },
            2 => match self.read_len_delimited() {
                Ok(v) => Ok(Read::Bytes(v)),
                Err(e) => Err(e),
            },
            5 => match self.read_fixed32() {
                Ok(v) => Ok(Read::Fixed32(v)),
                Err(e) => Err(e),
            },
            _ => Err(ProtoError::UnsupportedWireType { wire_type }),
        }
    }

    /// Reads a field: its number and its value.
    pub fn read_field(&mut self) -> (r: Result<(u64, Read<'a>), ProtoError>)
        requires
            old(self).wf(),
        ensures
            final(self).wf(),
            match field(old(self).rest()) {
                Ok((f, n)) => r matches Ok((number, v)) && number == f.number && v@ == f.value
                    && final(self).advanced(*old(self), n),
                Err(e) => r matches Err(f) && f == e && final(self).advanced(
                    *old(self),
                    field_gone(old(self).rest()),
                ),
            },
    {
        reveal(field);
        let ghost b = self.rest();
        let (number, wire_type) = match self.read_tag() {
            Ok(tag) => tag,
            Err(e) => return Err(e),
        };
        proof {
            let (_, n) = varint(b)->Ok_0;
            assert(self.rest() =~= b.skip(n as int));
        }
        match self.read_value(wire_type) {
            Ok(v) => Ok((number, v)),
            Err(e) => Err(e),
        }
    }
}

/// Numbers in front of others.
pub open spec fn before<T>(first: Seq<T>, rest: Result<Seq<T>, ProtoError>) -> Result<Seq<T>, ProtoError> {
    match rest {
        Ok(s) => Ok(first + s),
        Err(e) => Err(e),
    }
}

/// All the variable-length integers of `b`.
pub open spec fn varints(b: Seq<u8>) -> Result<Seq<u64>, ProtoError>
    decreases b.len(),
{
    if b.len() == 0 {
        Ok(Seq::empty())
    } else {
        match varint(b) {
            Ok((v, n)) => if 1 <= n <= b.len() {
                before(seq![v], varints(b.skip(n as int)))
            } else {
                Ok(Seq::empty())
            },
            Err(e) => Err(e),
        }
    }
}

/// All the 32-bit numbers of `b`.
pub open spec fn fixed32s(b: Seq<u8>) -> Result<Seq<u32>, ProtoError> {
    if b.len() % 4 == 0 {
        Ok(Seq::new(b.len() / 4, |i: int| le32_at(b, 4 * i)))
    } else {
        Err(ProtoError::TruncatedFixed32)
    }
}

/// All the 64-bit numbers of `b`.
pub open spec fn fixed64s(b: Seq<u8>) -> Result<Seq<u64>, ProtoError> {
    if b.len() % 8 == 0 {
        Ok(Seq::new(b.len() / 8, |i: int| le64_at(b, 8 * i)))
    } else {
        Err(ProtoError::TruncatedFixed64)
    }
}

/// Reads all the variable-length integers of `b`.
pub fn read_varints(b: &[u8]) -> (r: Result<Vec<u64>, ProtoError>)
    ensures
        match varints(b@) {
            Ok(s) => r matches Ok(v) && v@ == s,
            Err(e) => r matches Err(f) && f == e,
        },
{
    let mut p = ProtoReader::new(b);
    let mut out: Vec<u64> = Vec::new();
    assert(varints(b@) == before(out@, varints(p.rest()))) by {
        if let Ok(s) = varints(b@) {
            assert(out@ + s =~= s);
        }
    }
    while !p.done()
        invariant
            p.wf(),
            varints(b@) == before(out@, varints(p.rest())),
        decreases p.rest().len(),
    {
        let ghost rest = p.rest();
        let ghost had = out@;
        proof {
            lemma_lengths(rest);
        }
        match p.read_varint() {
            Ok(v) => {
                out.push(v);
                proof {
                    let (w, n) = varint(rest)->Ok_0;
                    assert(p.rest() =~= rest.skip(n as int));
                    if let Ok(s) = varints(p.rest()) {
                        assert(had + (seq![v] + s) =~= out@ + s);
                    }
                }
            },
            Err(e) => return Err(e),
        }
    }
    assert(out@ + Seq::<u64>::empty() =~= out@);
    Ok(out)
}

/// Reads all the 32-bit numbers of `b`.
pub fn read_fixed32s(b: &[u8]) -> (r: Result<Vec<u32>, ProtoError>)
    ensures
        match fixed32s(b@) {
            Ok(s) => r matches Ok(v) && v@ == s,
            Err(e) => r matches Err(f) && f == e,
        },
{
    let mut p = ProtoReader::new(b);
    let mut out: Vec<u32> = Vec::new();
    while !p.done()
        invariant
            p.wf(),
            p.bytes() == b@,
            p.at() == 4 * out@.len(),
            forall|i: int| 0 <= i < out@.len() ==> #[trigger] out@[i] == le32_at(b@, 4 * i),
        decreases p.rest().len(),
    {
        match p.read_fixed32() {
            Ok(v) => {
                out.push(v);
            },
            Err(e) => return Err(e),
        }
    }
    assert(out@ =~= fixed32s(b@)->Ok_0);
    Ok(out)
}

/// Reads all the 64-bit numbers of `b`.
pub fn read_fixed64s(b: &[u8]) -> (r: Result<Vec<u64>, ProtoError>)
    ensures
        match fixed64s(b@) {
            Ok(s) => r matches Ok(v) && v@ == s,
            Err(e) => r matches Err(f) && f == e,
        },
{
    let mut p = ProtoReader::new(b);
    let mut out: Vec<u64> = Vec::new();
    while !p.done()
        invariant
            p.wf(),
            p.bytes() == b@,
            p.at() == 8 * out@.len(),
            forall|i: int| 0 <= i < out@.len() ==> #[trigger] out@[i] == le64_at(b@, 8 * i),
        decreases p.rest().len(),
    {
        match p.read_fixed64() {
            Ok(v) => {
                out.push(v);
            },
            Err(e) => return Err(e),
        }
    }
    assert(out@ =~= fixed64s(b@)->Ok_0);
    Ok(out)
}

/// The 64-bit number whose little-endian bytes start at `i`.
pub fn read_le64(b: &[u8], i: usize) -> (r: u64)
    requires
        i + 8 <= b@.len(),
    ensures
        r == le64_at(b@, i as int),
{
    let low: u32 = cast::read_le32(b[i], b[i + 1], b[i + 2], b[i + 3]);
    let high: u32 = cast::read_le32(b[i + 4], b[i + 5], b[i + 6], b[i + 7]);
    low as u64 + 0x1_0000_0000 * (high as u64)
}

proof fn lemma_step(scale: u64, group: u64, total: u64, i: nat)
    requires
        i < 9,
        scale == power2::pow2(7 * i),
        group < 128,
        total < power2::pow2(7 * i),
    ensures
        group * scale <= u64::MAX,
        total + group * scale < power2::pow2(7 * (i + 1)),
        power2::pow2(7 * (i + 1)) == scale * 128,
        power2::pow2(7 * (i + 1)) <= 0x8000_0000_0000_0000,
        i < 8 ==> scale * 128 < 0x8000_0000_0000_0000,
{
    power2::lemma2_to64();
    power2::lemma2_to64_rest();
    power2::lemma_pow2_adds(7 * i, 7);
    if i < 8 {
        power2::lemma_pow2_strictly_increases(7 * (i + 1), 63);
    }
    assert(total + group * scale < scale * 128) by (nonlinear_arith)
        requires
            total < scale,
            group <= 127,
    ;
}

proof fn lemma_top_groups(b: Seq<u8>, i: nat)
    requires
        i <= 10,
    ensures
        i == 9 ==> groups(b, 9) < 0x8000_0000_0000_0000 && groups(b, 10) % 0x1_0000_0000_0000_0000 == groups(b, 9)
            + ((b[9] % 128) % 2) * 0x8000_0000_0000_0000,
        i == 10 ==> groups(b, 11) % 0x1_0000_0000_0000_0000 == groups(b, 10) % 0x1_0000_0000_0000_0000,
{
    power2::lemma2_to64();
    power2::lemma2_to64_rest();
    lemma_groups_bound(b, 9);
    power2::lemma_pow2_adds(63, 7);
    assert(power2::pow2(63) == 0x8000_0000_0000_0000);
    assert(power2::pow2(70) == 128 * 0x8000_0000_0000_0000);
    if i == 9 {
        let d = (b[9] % 128) as int;
        let p = power2::pow2(63) as int;
        assert(d * p == d * 0x8000_0000_0000_0000) by (nonlinear_arith)
            requires
                p == 0x8000_0000_0000_0000,
        ;
        assert(groups(b, 10) == groups(b, 9) + (b[9] % 128) as nat * power2::pow2(63));
        div_mod::lemma_fundamental_div_mod_converse(
            groups(b, 10) as int,
            0x1_0000_0000_0000_0000,
            d / 2,
            groups(b, 9) + (d % 2) * 0x8000_0000_0000_0000,
        );
    } else if i == 10 {
        let d = (b[10] % 128) as int;
        let p = power2::pow2(70) as int;
        assert(d * p == d * 128 * 0x8000_0000_0000_0000) by (nonlinear_arith)
            requires
                p == 128 * 0x8000_0000_0000_0000,
        ;
        assert(groups(b, 11) == groups(b, 10) + (b[10] % 128) as nat * power2::pow2(70));
        assert(groups(b, 11) == 64 * d * 0x1_0000_0000_0000_0000 + groups(b, 10));
        div_mod::lemma_mod_multiples_vanish(64 * d, groups(b, 10) as int, 0x1_0000_0000_0000_0000);
    }
}

/// Fixed numbers have their least byte first.
pub proof fn law_fixed_numbers_are_little_endian(b: Seq<u8>)
    ensures
        b.len() >= 4 ==> fixed32(b) == Ok::<(u32, nat), ProtoError>(
            ((b[0] + 256 * b[1] + 65536 * b[2] + 16777216 * b[3]) as u32, 4),
        ),
        b.len() >= 8 ==> fixed64(b) == Ok::<(u64, nat), ProtoError>(
            (
                (b[0] + 256 * b[1] + 65536 * b[2] + 16777216 * b[3] + 0x1_0000_0000 * (b[4] + 256 * b[5] + 65536 * b[6]
                    + 16777216 * b[7])) as u64,
                8,
            ),
        ),
        b.len() < 4 ==> fixed32(b) is Err,
        b.len() < 8 ==> fixed64(b) is Err,
{
}

proof fn lemma_groups_shift(b: Seq<u8>, n: nat)
    requires
        n < b.len(),
    ensures
        groups(b, n + 1) == b[0] % 128 + 128 * groups(b.skip(1), n),
    decreases n,
{
    power2::lemma2_to64();
    if n == 0 {
        assert(groups(b, 0) == 0);
        assert((b[0] % 128) as nat * power2::pow2(0) == b[0] % 128);
    } else {
        lemma_groups_shift(b, (n - 1) as nat);
        let k = (7 * (n - 1)) as nat;
        power2::lemma_pow2_adds(7, k);
        assert(b.skip(1)[n - 1] == b[n as int]);
        let x = (b[n as int] % 128) as nat;
        let p = power2::pow2(k);
        assert(power2::pow2((7 * n) as nat) == 128 * p);
        assert(x * (128 * p) == 128 * (x * p)) by (nonlinear_arith);
    }
}

/// A varint is the seven lower bits of its first byte, and where that byte says that more follow, 128
/// times the varint that follows, as far as that fits.
pub proof fn law_varints_are_groups_of_seven(b: Seq<u8>)
    requires
        b.len() > 0,
    ensures
        b[0] < 128 ==> varint(b) == Ok::<(u64, nat), ProtoError>((b[0] as u64, 1)),
        b[0] >= 128 && varint(b) is Ok ==> varint(b.skip(1)) is Ok && varint(b)->Ok_0.1 == varint(b.skip(1))->Ok_0.1 + 1
            && varint(b)->Ok_0.0 == (b[0] % 128 + 128 * varint(b.skip(1))->Ok_0.0) % 0x1_0000_0000_0000_0000,
{
    power2::lemma2_to64();
    if b[0] < 128 {
        assert(groups(b, 0) == 0);
        assert(groups(b, 1) == (b[0] % 128) as nat * power2::pow2(0));
    } else if varint(b) is Ok {
        let n = continued(b);
        lemma_groups_shift(b, n);
        let g = groups(b.skip(1), n) as int;
        let m = 0x1_0000_0000_0000_0000int;
        vstd::arithmetic::div_mod::lemma_mul_mod_noop_right(128, g, m);
        vstd::arithmetic::div_mod::lemma_add_mod_noop((b[0] % 128) as int, 128 * g, m);
        vstd::arithmetic::div_mod::lemma_add_mod_noop((b[0] % 128) as int, 128 * (g % m), m);
    }
}

/// A tag holds the number of a field and, in its three lower bits, the form of its value.
pub proof fn law_tags_hold_numbers_and_forms(b: Seq<u8>)
    requires
        field(b) is Ok,
    ensures
        varint(b) is Ok,
        field(b)->Ok_0.0.number == varint(b)->Ok_0.0 / 8,
        ({
            let form = varint(b)->Ok_0.0 % 8;
            let v = field(b)->Ok_0.0.value;
            &&& form == 0 <==> v is Varint
            &&& form == 1 <==> v is Fixed64
            &&& form == 2 <==> v is Bytes
            &&& form == 5 <==> v is Fixed32
        }),
{
    reveal(field);
}

/// Bytes of a given length follow their length, and are all there or none are read.
pub proof fn law_bytes_follow_their_length(b: Seq<u8>, i: int)
    requires
        varint(b) is Ok,
    ensures
        ({
            let (len, n) = varint(b)->Ok_0;
            &&& n + len > b.len() ==> delimited(b) == Err::<(Seq<u8>, nat), ProtoError>(ProtoError::TruncatedBytes)
            &&& n + len <= b.len() ==> {
                &&& delimited(b) is Ok
                &&& delimited(b)->Ok_0.1 == n + len
                &&& delimited(b)->Ok_0.0.len() == len
                &&& 0 <= i < len ==> delimited(b)->Ok_0.0[i] == b[n + i]
            }
        }),
{
    lemma_lengths(b);
}

/// How errors are worded.
pub proof fn law_errors_are_worded(wire_type: u8)
    ensures
        ProtoError::TruncatedVarint.text() == "protobuf: truncated varint"@,
        ProtoError::VarintTooLong.text() == "protobuf: varint too long"@,
        ProtoError::TruncatedBytes.text() == "protobuf: truncated length-delimited field"@,
        ProtoError::TruncatedFixed32.text() == "protobuf: truncated fixed32"@,
        ProtoError::TruncatedFixed64.text() == "protobuf: truncated fixed64"@,
        (ProtoError::UnsupportedWireType { wire_type }).text() == "protobuf: unsupported wire type "@ + text::decimal(
            wire_type as nat,
        ),
{
}

} // verus!
