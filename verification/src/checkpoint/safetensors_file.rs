//! Safetensors files.
//!
//! A file holds tensors under distinct names. Single, half and bfloat elements keep their bytes;
//! other types are carried over to single precision where they are read at all.

use vstd::prelude::*;

use crate::checkpoint::cast;
use crate::checkpoint::cast::SrcDtype;
use crate::checkpoint::elements;
use crate::checkpoint::elements::{RawTensor, RawView, Stored};
use crate::checkpoint::proto;
use crate::text;

verus! {

/// A tensor as the file stores it. The type of the elements is held by its name.
#[derive(Debug)]
pub struct StTensor {
    pub name: String,
    pub dtype: String,
    pub shape: Vec<usize>,
    pub data: Vec<u8>,
}

/// What a file stores under a name.
pub struct StView {
    pub dtype: Seq<char>,
    pub shape: Seq<usize>,
    pub data: Seq<u8>,
}

impl StTensor {
    /// What is stored under the tensor's name.
    pub open spec fn stored(&self) -> StView {
        StView { dtype: self.dtype@, shape: self.shape@, data: self.data@ }
    }
}

/// Why a file's tensors cannot be had.
#[derive(Debug)]
pub enum StError {
    /// The bytes are no safetensors file.
    Malformed { reason: String },
    /// The elements of a tensor are of a type that is not read.
    UnsupportedDtype { name: String, dtype: String },
}

impl StError {
    /// The error in words.
    pub open spec fn text(&self) -> Seq<char> {
        match self {
            StError::Malformed { reason } => "deserialize safetensors: "@ + reason@,
            StError::UnsupportedDtype { name, dtype } => "tensor "@ + name@ + ": unsupported dtype "@ + dtype@,
        }
    }

    /// The error in words.
    pub fn message(&self) -> (r: String)
        ensures
            r@ == self.text(),
    {
        match self {
            StError::Malformed { reason } => text::join2("deserialize safetensors: ", reason.as_str()),
            StError::UnsupportedDtype { name, dtype } => {
                let mut s: String = text::join2("tensor ", name.as_str());
                s.append(": unsupported dtype ");
                s.append(dtype.as_str());
                s
            },
        }
    }
}

/// The greatest length of a header that is read.
pub const MAX_HEADER: u64 = 100_000_000;

/// The header of a file: eight bytes give its length, and it follows them. A file without one, or
/// with one that is too long, has none that is read.
pub open spec fn header(bytes: Seq<u8>) -> Option<Seq<u8>> {
    if bytes.len() < 8 {
        None
    } else {
        let n = proto::le64_at(bytes, 0);
        if n > MAX_HEADER || 8 + n > bytes.len() {
            None
        } else {
            Some(bytes.subrange(8, 8 + n))
        }
    }
}

/// The end of the last tensor that a header declares: what `Metadata::data_len` gives where the
/// header is one.
pub uninterp spec fn declared_end(header: Seq<u8>) -> Option<usize>;

/// Reads the header as `SafeTensors::read_metadata` does, with `str::from_utf8` and
/// `serde_json::from_str` of a `safetensors::tensor::Metadata`, and calls `Metadata::data_len`. There
/// is no end where the bytes are no header; else it depends on the bytes alone. A header of this
/// length has no number with more digits than the reader of numbers can count.
#[verifier::external_body]
fn read_declared_end(header: &[u8]) -> (r: Option<usize>)
    requires
        header@.len() <= MAX_HEADER,
    ensures
        r == declared_end(header@),
{
    let text = core::str::from_utf8(header).ok()?;
    let metadata: safetensors::tensor::Metadata = serde_json::from_str(text).ok()?;
    Some(metadata.data_len())
}

/// Whether the length that a file declares for itself can be counted.
pub open spec fn countable(bytes: Seq<u8>) -> bool {
    header(bytes) matches Some(h) ==> (declared_end(h) matches Some(end) ==> end + 8 + h.len() <= usize::MAX)
}

/// What a file stores, by name: what `SafeTensors::deserialize` makes of its bytes.
pub uninterp spec fn stored_tensors(bytes: Seq<u8>) -> Option<Map<Seq<char>, StView>>;

/// What a file stores, by name. Bytes that declare more than can be counted are no file.
pub open spec fn file_tensors(bytes: Seq<u8>) -> Option<Map<Seq<char>, StView>> {
    if countable(bytes) {
        stored_tensors(bytes)
    } else {
        None
    }
}

/// The tensors are those of the map, in some order.
pub open spec fn lists(tensors: Seq<StTensor>, stored: Map<Seq<char>, StView>) -> bool {
    &&& forall|i: int, j: int|
        0 <= i < j < tensors.len() ==> #[trigger] tensors[i].name@ != #[trigger] tensors[j].name@
    &&& forall|i: int|
        0 <= i < tensors.len() ==> stored.contains_pair(#[trigger] tensors[i].name@, tensors[i].stored())
    &&& forall|k: Seq<char>| #[trigger]
        stored.contains_key(k) ==> exists|i: int| 0 <= i < tensors.len() && #[trigger] tensors[i].name@ == k
}

/// Calls `SafeTensors::deserialize` and lists what `SafeTensors::tensors` gives: every tensor of the
/// file once, with its type, shape and bytes. Whether the bytes are a file, and what it stores,
/// depends on the bytes alone; the order in which the tensors come, and the words for what is wrong
/// with other bytes, are not said. The call adds the declared end to the length of the header
/// without a check, so the sum must be one that can be counted.
#[verifier::external_body]
fn deserialize(bytes: &[u8]) -> (r: Result<Vec<StTensor>, String>)
    requires
        countable(bytes@),
    ensures
        match r {
            Ok(tensors) => stored_tensors(bytes@) matches Some(stored) && lists(tensors@, stored),
            Err(_) => stored_tensors(bytes@) is None,
        },
{
    match safetensors::SafeTensors::deserialize(bytes) {
        Ok(st) => Ok(
            st.tensors().into_iter().map(|(name, view)| StTensor {
                name,
                dtype: format!("{:?}", view.dtype()),
                shape: view.shape().to_vec(),
                data: view.data().to_vec(),
            }).collect(),
        ),
        Err(e) => Err(e.to_string()),
    }
}

/// Whether the length that a file declares for itself can be counted.
fn is_countable(bytes: &[u8]) -> (r: bool)
    ensures
        r == countable(bytes@),
{
    if bytes.len() < 8 {
        return true;
    }
    let n: u64 = proto::read_le64(bytes, 0);
    if n > MAX_HEADER || n > (bytes.len() - 8) as u64 {
        return true;
    }
    let n: usize = n as usize;
    let text: &[u8] = vstd::slice::slice_subrange(bytes, 8, 8 + n);
    match read_declared_end(text) {
        Some(end) => end <= usize::MAX - 8 - n,
        None => true,
    }
}

/// The tensors of a file as it stores them, in some order.
pub fn list_tensors(bytes: &[u8]) -> (r: Result<Vec<StTensor>, StError>)
    ensures
        match r {
            Ok(tensors) => file_tensors(bytes@) matches Some(stored) && lists(tensors@, stored),
            Err(e) => e is Malformed && file_tensors(bytes@) is None,
        },
{
    if !is_countable(bytes) {
        return Err(StError::Malformed { reason: "incomplete metadata, file not fully covered".to_string() });
    }
    match deserialize(bytes) {
        Ok(listing) => Ok(listing),
        Err(reason) => Err(StError::Malformed { reason }),
    }
}

/// The format that is kept under its name.
pub open spec fn kept(dtype: Seq<char>) -> Option<SrcDtype> {
    if dtype == "F32"@ {
        Some(SrcDtype::F32)
    } else if dtype == "F16"@ {
        Some(SrcDtype::F16)
    } else if dtype == "BF16"@ {
        Some(SrcDtype::BF16)
    } else {
        None
    }
}

/// The type that is carried over under its name.
pub open spec fn carried(dtype: Seq<char>) -> Option<Stored> {
    if dtype == "F64"@ {
        Some(Stored::F64)
    } else if dtype == "I64"@ {
        Some(Stored::I64)
    } else if dtype == "I32"@ {
        Some(Stored::I32)
    } else if dtype == "I16"@ {
        Some(Stored::I16)
    } else if dtype == "I8"@ {
        Some(Stored::I8)
    } else if dtype == "U8"@ {
        Some(Stored::U8)
    } else if dtype == "BOOL"@ {
        Some(Stored::Bool)
    } else {
        None
    }
}

/// The tensor of what is stored under a name, where the type of its elements is read.
pub open spec fn raw_of(name: Seq<char>, s: StView) -> Option<RawView> {
    let shape = s.shape.map_values(|d: usize| d as u64);
    match kept(s.dtype) {
        Some(dtype) => Some(RawView { name, shape, dtype, data: s.data }),
        None => match carried(s.dtype) {
            Some(kind) => Some(
                RawView {
                    name,
                    shape,
                    dtype: SrcDtype::F32,
                    data: cast::single_bytes(elements::stored(kind, s.data)),
                },
            ),
            None => None,
        },
    }
}

fn kept_dtype(dtype: &str) -> (r: Option<SrcDtype>)
    ensures
        r == kept(dtype@),
{
    if text::same(dtype, "F32") {
        Some(SrcDtype::F32)
    } else if text::same(dtype, "F16") {
        Some(SrcDtype::F16)
    } else if text::same(dtype, "BF16") {
        Some(SrcDtype::BF16)
    } else {
        None
    }
}

fn carried_type(dtype: &str) -> (r: Option<Stored>)
    ensures
        r == carried(dtype@),
{
    if text::same(dtype, "F64") {
        Some(Stored::F64)
    } else if text::same(dtype, "I64") {
        Some(Stored::I64)
    } else if text::same(dtype, "I32") {
        Some(Stored::I32)
    } else if text::same(dtype, "I16") {
        Some(Stored::I16)
    } else if text::same(dtype, "I8") {
        Some(Stored::I8)
    } else if text::same(dtype, "U8") {
        Some(Stored::U8)
    } else if text::same(dtype, "BOOL") {
        Some(Stored::Bool)
    } else {
        None
    }
}

/// The note on elements that are carried over to single precision, or that are not read.
pub fn cast_note(t: &StTensor) -> (r: Option<String>)
    ensures
        match kept(t.dtype@) {
            Some(_) => r is None,
            None => r matches Some(s) && s@ == "note: tensor "@ + t.name@ + ": casting "@ + t.dtype@ + " to F32"@,
        },
{
    match kept_dtype(t.dtype.as_str()) {
        Some(_) => None,
        None => {
            let mut s: String = text::join2("note: tensor ", t.name.as_str());
            s.append(": casting ");
            s.append(t.dtype.as_str());
            s.append(" to F32");
            Some(s)
        },
    }
}

/// The tensor of one that a file stores.
pub fn tensor_to_raw(t: &StTensor) -> (r: Result<RawTensor, StError>)
    ensures
        match raw_of(t.name@, t.stored()) {
            Some(v) => r matches Ok(raw) && raw@ == v,
            None => r matches Err(StError::UnsupportedDtype { name, dtype }) && name@ == t.name@ && dtype@ == t.dtype@,
        },
{
    let mut shape: Vec<u64> = Vec::new();
    let mut i: usize = 0;
    while i < t.shape.len()
        invariant
            i <= t.shape@.len(),
            shape@.len() == i,
            forall|q: int| 0 <= q < i ==> #[trigger] shape@[q] == t.shape@[q] as u64,
        decreases t.shape@.len() - i,
    {
        shape.push(t.shape[i] as u64);
        i += 1;
    }
    assert(shape@ =~= t.shape@.map_values(|d: usize| d as u64));
    match kept_dtype(t.dtype.as_str()) {
        Some(dtype) => Ok(
            RawTensor { name: t.name.as_str().to_string(), shape, dtype, data: cast::copy_bytes(t.data.as_slice()) },
        ),
        None => match carried_type(t.dtype.as_str()) {
            Some(kind) => {
                let vals: Vec<u32> = elements::decode_stored(kind, t.data.as_slice());
                Ok(
                    RawTensor {
                        name: t.name.as_str().to_string(),
                        shape,
                        dtype: SrcDtype::F32,
                        data: cast::f32_to_bytes(vals.as_slice()),
                    },
                )
            },
            None => Err(
                StError::UnsupportedDtype {
                    name: t.name.as_str().to_string(),
                    dtype: t.dtype.as_str().to_string(),
                },
            ),
        },
    }
}

/// Whether every tensor that is stored can be read.
pub open spec fn all_readable(stored: Map<Seq<char>, StView>) -> bool {
    forall|k: Seq<char>| #[trigger] stored.contains_key(k) ==> raw_of(k, stored[k]) is Some
}

/// The tensors are those that are stored, in some order.
pub open spec fn gives(tensors: Seq<RawView>, stored: Map<Seq<char>, StView>) -> bool {
    &&& forall|i: int, j: int| 0 <= i < j < tensors.len() ==> #[trigger] tensors[i].name != #[trigger] tensors[j].name
    &&& forall|i: int|
        0 <= i < tensors.len() ==> stored.contains_key((#[trigger] tensors[i]).name) && raw_of(
            tensors[i].name,
            stored[tensors[i].name],
        ) == Some(tensors[i])
    &&& forall|k: Seq<char>| #[trigger]
        stored.contains_key(k) ==> exists|i: int| 0 <= i < tensors.len() && (#[trigger] tensors[i]).name == k
}

/// The tensors of a listing of a file, in the order of the listing.
pub fn read_listing(listing: &Vec<StTensor>) -> (r: Result<Vec<RawTensor>, StError>)
    ensures
        match r {
            Ok(tensors) => tensors@.len() == listing@.len() && forall|i: int|
                0 <= i < listing@.len() ==> raw_of((#[trigger] listing@[i]).name@, listing@[i].stored()) == Some(
                    tensors@[i]@,
                ),
            Err(StError::UnsupportedDtype { name, dtype }) => exists|i: int| {
                &&& 0 <= i < listing@.len()
                &&& raw_of((#[trigger] listing@[i]).name@, listing@[i].stored()) is None
                &&& name@ == listing@[i].name@
                &&& dtype@ == listing@[i].dtype@
                &&& forall|j: int|
                    0 <= j < i ==> raw_of((#[trigger] listing@[j]).name@, listing@[j].stored()) is Some
            },
            Err(StError::Malformed { .. }) => false,
        },
{
    let mut tensors: Vec<RawTensor> = Vec::new();
    let mut i: usize = 0;
    while i < listing.len()
        invariant
            i <= listing@.len(),
            tensors@.len() == i,
            forall|j: int|
                0 <= j < i ==> raw_of((#[trigger] listing@[j]).name@, listing@[j].stored()) == Some(tensors@[j]@),
        decreases listing@.len() - i,
    {
        match tensor_to_raw(&listing[i]) {
            Ok(raw) => {
                tensors.push(raw);
            },
            Err(e) => {
                assert(raw_of(listing@[i as int].name@, listing@[i as int].stored()) is None);
                return Err(e);
            },
        }
        i += 1;
    }
    Ok(tensors)
}

/// The tensors of a file.
pub fn load_safetensors(bytes: &[u8]) -> (r: Result<Vec<RawTensor>, StError>)
    ensures
        match file_tensors(bytes@) {
            None => r matches Err(StError::Malformed { .. }),
            Some(stored) => match r {
                Ok(tensors) => gives(elements::views(tensors@), stored),
                Err(StError::UnsupportedDtype { name, dtype }) => stored.contains_key(name@) && raw_of(
                    name@,
                    stored[name@],
                ) is None && dtype@ == stored[name@].dtype,
                Err(StError::Malformed { .. }) => false,
            },
        },
        r is Ok <==> (file_tensors(bytes@) matches Some(stored) && all_readable(stored)),
{
    let listing = match list_tensors(bytes) {
        Ok(listing) => listing,
        Err(e) => return Err(e),
    };
    let ghost stored = file_tensors(bytes@)->Some_0;
    let ghost all = listing@;
    match read_listing(&listing) {
        Ok(tensors) => {
            proof {
                lemma_read(all, tensors@, stored);
            }
            Ok(tensors)
        },
        Err(e) => {
            proof {
                let i = choose|i: int|
                    0 <= i < all.len() && raw_of((#[trigger] all[i]).name@, all[i].stored()) is None;
                assert(stored.contains_pair(all[i].name@, all[i].stored()));
                assert(stored.contains_key(all[i].name@));
            }
            Err(e)
        },
    }
}

proof fn lemma_read(all: Seq<StTensor>, tensors: Seq<RawTensor>, stored: Map<Seq<char>, StView>)
    requires
        lists(all, stored),
        tensors.len() == all.len(),
        forall|i: int|
            0 <= i < all.len() ==> raw_of((#[trigger] all[i]).name@, all[i].stored()) == Some(tensors[i]@),
    ensures
        gives(elements::views(tensors), stored),
        all_readable(stored),
{
    let vs = elements::views(tensors);
    assert forall|i: int| 0 <= i < vs.len() implies stored.contains_key((#[trigger] vs[i]).name) && raw_of(
        vs[i].name,
        stored[vs[i].name],
    ) == Some(vs[i]) by {
        assert(raw_of(all[i].name@, all[i].stored()) == Some(tensors[i]@));
        assert(stored.contains_pair(all[i].name@, all[i].stored()));
        assert(vs[i].name == all[i].name@);
    }
    assert forall|i: int, j: int| 0 <= i < j < vs.len() implies #[trigger] vs[i].name != #[trigger] vs[j].name by {
        assert(raw_of(all[i].name@, all[i].stored()) == Some(tensors[i]@));
        assert(raw_of(all[j].name@, all[j].stored()) == Some(tensors[j]@));
        assert(all[i].name@ != all[j].name@);
    }
    assert forall|k: Seq<char>| #[trigger] stored.contains_key(k) implies (exists|i: int|
        0 <= i < vs.len() && (#[trigger] vs[i]).name == k) && raw_of(k, stored[k]) is Some by {
        let i = choose|i: int| 0 <= i < all.len() && #[trigger] all[i].name@ == k;
        assert(raw_of(all[i].name@, all[i].stored()) == Some(tensors[i]@));
        assert(vs[i].name == k);
        assert(stored.contains_pair(all[i].name@, all[i].stored()));
    }
}

/// The names of the element types, and no others.
pub proof fn law_type_names(dtype: Seq<char>)
    ensures
        kept("F32"@) == Some(SrcDtype::F32),
        kept("F16"@) == Some(SrcDtype::F16),
        kept("BF16"@) == Some(SrcDtype::BF16),
        kept("F64"@) is None && carried("F64"@) == Some(Stored::F64),
        kept("I64"@) is None && carried("I64"@) == Some(Stored::I64),
        kept("I32"@) is None && carried("I32"@) == Some(Stored::I32),
        kept("I16"@) is None && carried("I16"@) == Some(Stored::I16),
        kept("I8"@) is None && carried("I8"@) == Some(Stored::I8),
        kept("U8"@) is None && carried("U8"@) == Some(Stored::U8),
        kept("BOOL"@) is None && carried("BOOL"@) == Some(Stored::Bool),
        kept(dtype) is Some ==> dtype == "F32"@ || dtype == "F16"@ || dtype == "BF16"@,
        carried(dtype) is Some ==> dtype == "F64"@ || dtype == "I64"@ || dtype == "I32"@ || dtype == "I16"@ || dtype == "I8"@ || dtype == "U8"@ || dtype == "BOOL"@,
{
    reveal_strlit("F32");
    reveal_strlit("F16");
    reveal_strlit("BF16");
    reveal_strlit("F64");
    reveal_strlit("I64");
    reveal_strlit("I32");
    reveal_strlit("I16");
    reveal_strlit("I8");
    reveal_strlit("U8");
    reveal_strlit("BOOL");
    assert("F32"@.len() == 3 && "F32"@[0] == 'F' && "F32"@[1] == '3');
    assert("F16"@.len() == 3 && "F16"@[0] == 'F' && "F16"@[1] == '1');
    assert("BF16"@.len() == 4 && "BF16"@[0] == 'B' && "BF16"@[1] == 'F');
    assert("F64"@.len() == 3 && "F64"@[0] == 'F' && "F64"@[1] == '6');
    assert("I64"@.len() == 3 && "I64"@[0] == 'I' && "I64"@[1] == '6');
    assert("I32"@.len() == 3 && "I32"@[0] == 'I' && "I32"@[1] == '3');
    assert("I16"@.len() == 3 && "I16"@[0] == 'I' && "I16"@[1] == '1');
    assert("I8"@.len() == 2 && "I8"@[0] == 'I' && "I8"@[1] == '8');
    assert("U8"@.len() == 2 && "U8"@[0] == 'U' && "U8"@[1] == '8');
    assert("BOOL"@.len() == 4 && "BOOL"@[0] == 'B' && "BOOL"@[1] == 'O');
}

/// A tensor keeps its name, its axes and, where its format is kept, its bytes; else its elements are
/// carried over one for one to singles.
pub proof fn law_tensors_are_kept(name: Seq<char>, s: StView, i: int)
    requires
        raw_of(name, s) is Some,
    ensures
        raw_of(name, s)->0.name == name,
        raw_of(name, s)->0.shape.len() == s.shape.len(),
        0 <= i < s.shape.len() ==> raw_of(name, s)->0.shape[i] == s.shape[i],
        kept(s.dtype) matches Some(d) ==> raw_of(name, s)->0.dtype == d && raw_of(name, s)->0.data == s.data,
        kept(s.dtype) is None ==> raw_of(name, s)->0.dtype == SrcDtype::F32 && carried(s.dtype) is Some
            && raw_of(name, s)->0.data == cast::single_bytes(elements::stored(carried(s.dtype)->0, s.data)),
{
}

/// The header is what the first eight bytes, the least first, give the length of.
pub proof fn law_header_follows_its_length(bytes: Seq<u8>, n: nat)
    requires
        n <= 100_000_000,
        8 + n <= bytes.len(),
        bytes[0] + 256 * bytes[1] + 65536 * bytes[2] + 16777216 * bytes[3] == n,
        bytes[4] == 0 && bytes[5] == 0 && bytes[6] == 0 && bytes[7] == 0,
    ensures
        header(bytes) == Some(bytes.subrange(8, (8 + n) as int)),
{
}

/// How errors are worded.
pub proof fn law_errors_are_worded(name: String, dtype: String)
    ensures
        (StError::Malformed { reason: name }).text() == "deserialize safetensors: "@ + name@,
        (StError::UnsupportedDtype { name, dtype }).text() == "tensor "@ + name@ + ": unsupported dtype "@ + dtype@,
{
}

} // verus!
