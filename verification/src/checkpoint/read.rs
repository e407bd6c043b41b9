//! Putting checkpoints together.
//!
//! A checkpoint may come in several files. Their tensors are merged in the order of the files; a
//! prefix can be stripped from the names, and no name may then occur twice.

use vstd::prelude::*;

use crate::checkpoint::elements;
use crate::checkpoint::elements::{RawTensor, RawView};
use crate::text;

verus! {

/// A value of a checkpoint's metadata. Numbers with a fraction are held as their bits.
#[derive(Debug)]
pub enum MetaValue {
    Uint8(u8),
    Int8(i8),
    Uint16(u16),
    Int16(i16),
    Uint32(u32),
    Int32(i32),
    Float32(u32),
    Bool(bool),
    Text(String),
    Uint64(u64),
    Int64(i64),
    Float64(u64),
    ArrayUint32(Vec<u32>),
    ArrayFloat32(Vec<u32>),
    ArrayText(Vec<String>),
}

/// A loaded checkpoint: all tensors and the metadata that came with them.
#[derive(Debug)]
pub struct Checkpoint {
    pub tensors: Vec<RawTensor>,
    pub metadata: Vec<(String, MetaValue)>,
}

/// How a checkpoint is loaded.
#[derive(Debug)]
pub struct LoadOptions {
    /// The dictionary of a pickle that holds the tensors.
    pub pickle_key: Option<String>,
    /// A prefix to strip from every name that has it.
    pub strip_prefix: Option<String>,
}

impl Default for LoadOptions {
    /// No dictionary and no prefix.
    fn default() -> (r: Self)
        ensures
            r.pickle_key is None,
            r.strip_prefix is None,
    {
        LoadOptions { pickle_key: None, strip_prefix: None }
    }
}

/// Why files make no checkpoint.
#[derive(Debug)]
pub enum MergeError {
    /// There are no files.
    NoInputs,
    /// A name occurs twice.
    DuplicateName { name: String },
}

impl MergeError {
    /// The error in words.
    pub open spec fn text(&self) -> Seq<char> {
        match self {
            MergeError::NoInputs => "no input files given"@,
            MergeError::DuplicateName { name } => "duplicate tensor name across inputs: "@ + name@,
        }
    }

    /// The error in words.
    pub fn message(&self) -> (r: String)
        ensures
            r@ == self.text(),
    {
        match self {
            MergeError::NoInputs => "no input files given".to_string(),
            MergeError::DuplicateName { name } => text::join2(
                "duplicate tensor name across inputs: ",
                name.as_str(),
            ),
        }
    }
}

/// A name without the prefix, where it has it.
pub open spec fn stripped(name: Seq<char>, prefix: Option<Seq<char>>) -> Seq<char> {
    match prefix {
        Some(p) => if text::has_prefix(name, p) {
            text::without_prefix(name, p)
        } else {
            name
        },
        None => name,
    }
}

/// What an optional string holds.
pub open spec fn held(o: Option<String>) -> Option<Seq<char>> {
    match o {
        Some(s) => Some(s@),
        None => None,
    }
}

/// All the tensors of the parts, in their order.
pub open spec fn joined(parts: Seq<Checkpoint>) -> Seq<RawView>
    decreases parts.len(),
{
    if parts.len() == 0 {
        Seq::empty()
    } else {
        joined(parts.drop_last()) + elements::views(parts.last().tensors@)
    }
}

/// All the metadata of the parts, in their order.
pub open spec fn joined_metadata(parts: Seq<Checkpoint>) -> Seq<(String, MetaValue)>
    decreases parts.len(),
{
    if parts.len() == 0 {
        Seq::empty()
    } else {
        joined_metadata(parts.drop_last()) + parts.last().metadata@
    }
}

/// The tensors with the prefix stripped from their names.
pub open spec fn renamed(tensors: Seq<RawView>, prefix: Option<Seq<char>>) -> Seq<RawView> {
    tensors.map_values(|t: RawView| RawView { name: stripped(t.name, prefix), ..t })
}

/// Tensor `i` has the name of one before it.
pub open spec fn repeats(tensors: Seq<RawView>, i: int) -> bool {
    exists|j: int| 0 <= j < i && #[trigger] tensors[j].name == tensors[i].name
}

/// Tensor `i` is the first with the name of one before it.
pub open spec fn first_repeat(tensors: Seq<RawView>, i: int) -> bool {
    &&& 0 <= i < tensors.len()
    &&& repeats(tensors, i)
    &&& forall|k: int| 0 <= k < i ==> !repeats(tensors, k)
}

/// Whether no name occurs twice.
pub open spec fn distinct_names(tensors: Seq<RawView>) -> bool {
    forall|i: int, j: int| 0 <= i < j < tensors.len() ==> #[trigger] tensors[i].name != #[trigger] tensors[j].name
}

fn strip_names(tensors: &mut Vec<RawTensor>, prefix: &str)
    ensures
        elements::views(final(tensors)@) == renamed(elements::views(old(tensors)@), Some(prefix@)),
{
    let ghost before = tensors@;
    let mut i: usize = 0;
    while i < tensors.len()
        invariant
            i <= tensors@.len() == before.len(),
            forall|q: int|
                0 <= q < before.len() ==> #[trigger] tensors@[q]@ == (if q < i {
                    RawView { name: stripped(before[q]@.name, Some(prefix@)), ..before[q]@ }
                } else {
                    before[q]@
                }),
        decreases before.len() - i,
    {
        assert(tensors@[i as int]@ == before[i as int]@);
        let rest: Option<String> = match text::strip_prefix(tensors[i].name.as_str(), prefix) {
            Some(rest) => Some(rest.to_string()),
            None => None,
        };
        let ghost had = tensors@;
        match rest {
            Some(name) => {
                tensors[i].name = name;
                assert forall|q: int| 0 <= q < before.len() && q != i implies tensors@[q] == had[q] by {}
            },
            None => {},
        }
        i += 1;
        assert forall|q: int| 0 <= q < before.len() implies #[trigger] tensors@[q]@ == (if q < i {
            RawView { name: stripped(before[q]@.name, Some(prefix@)), ..before[q]@ }
        } else {
            before[q]@
        }) by {
            assert(had[q]@ == had[q]@);
        }
    }
    assert(elements::views(tensors@) =~= renamed(elements::views(before), Some(prefix@)));
}

/// The place of the first tensor with the name of one before it; the number of tensors where no
/// name occurs twice.
fn find_repeat(tensors: &Vec<RawTensor>) -> (r: usize)
    ensures
        r <= tensors@.len(),
        if r < tensors@.len() {
            first_repeat(elements::views(tensors@), r as int)
        } else {
            forall|k: int| 0 <= k < tensors@.len() ==> !repeats(elements::views(tensors@), k)
        },
{
    let ghost vs = elements::views(tensors@);
    let mut i: usize = 0;
    while i < tensors.len()
        invariant
            i <= tensors@.len(),
            vs == elements::views(tensors@),
            forall|k: int| 0 <= k < i ==> !repeats(vs, k),
        decreases tensors@.len() - i,
    {
        let mut j: usize = 0;
        while j < i
            invariant
                j <= i < tensors@.len(),
                vs == elements::views(tensors@),
                forall|k: int| 0 <= k < i ==> !repeats(vs, k),
                forall|k: int| 0 <= k < j ==> #[trigger] vs[k].name != vs[i as int].name,
            decreases i - j,
        {
            if text::same(tensors[j].name.as_str(), tensors[i].name.as_str()) {
                assert(vs[j as int].name == vs[i as int].name);
                return i;
            }
            j += 1;
        }
        i += 1;
    }
    i
}

/// One checkpoint of all the parts.
pub fn merge(parts: Vec<Checkpoint>, opts: &LoadOptions) -> (r: Result<Checkpoint, MergeError>)
    ensures
        match r {
            Ok(c) => parts@.len() > 0 && elements::views(c.tensors@) == renamed(
                joined(parts@),
                held(opts.strip_prefix),
            ) && distinct_names(elements::views(c.tensors@)) && c.metadata@ == joined_metadata(parts@),
            Err(MergeError::NoInputs) => parts@.len() == 0,
            Err(MergeError::DuplicateName { name }) => parts@.len() > 0 && exists|i: int| {
                &&& #[trigger] first_repeat(renamed(joined(parts@), held(opts.strip_prefix)), i)
                &&& name@ == renamed(joined(parts@), held(opts.strip_prefix))[i].name
            },
        },
{
    if parts.len() == 0 {
        return Err(MergeError::NoInputs);
    }
    let ghost all = parts@;
    let mut left: Vec<Checkpoint> = parts;
    let mut tensors: Vec<RawTensor> = Vec::new();
    let mut metadata: Vec<(String, MetaValue)> = Vec::new();
    assert(left@ =~= all.take(all.len() as int));
    assert(joined(all) =~= joined(left@) + elements::views(tensors@));
    assert(joined_metadata(all) =~= joined_metadata(left@) + metadata@);
    while left.len() > 0
        invariant
            joined(all) == joined(left@) + elements::views(tensors@),
            joined_metadata(all) == joined_metadata(left@) + metadata@,
        decreases left@.len(),
    {
        let ghost before = left@;
        let ghost had = tensors@;
        let ghost had_metadata = metadata@;
        match left.pop() {
            Some(part) => {
                let Checkpoint { tensors: mut t, metadata: mut m } = part;
                t.append(&mut tensors);
                m.append(&mut metadata);
                tensors = t;
                metadata = m;
                assert(before.drop_last() =~= left@);
                assert(elements::views(tensors@) =~= elements::views(before.last().tensors@) + elements::views(had));
                assert(joined(left@) + elements::views(tensors@) =~= joined(before) + elements::views(had));
                assert(joined_metadata(left@) + metadata@ =~= joined_metadata(before) + had_metadata);
            },
            None => {},
        }
    }
    assert(elements::views(tensors@) =~= joined(all));
    assert(metadata@ =~= joined_metadata(all));
    match &opts.strip_prefix {
        Some(prefix) => strip_names(&mut tensors, prefix.as_str()),
        None => {},
    }
    let ghost vs = elements::views(tensors@);
    assert(vs =~= renamed(joined(all), held(opts.strip_prefix)));
    let at: usize = find_repeat(&tensors);
    if at < tensors.len() {
        assert(first_repeat(vs, at as int));
        return Err(MergeError::DuplicateName { name: tensors[at].name.as_str().to_string() });
    }
    assert(distinct_names(vs)) by {
        assert forall|i: int, j: int| 0 <= i < j < vs.len() implies #[trigger] vs[i].name != #[trigger] vs[j].name by {
            assert(!repeats(vs, j));
        }
    }
    Ok(Checkpoint { tensors, metadata })
}

/// Where one name stands twice, no checkpoint comes of the parts; where none does, one comes.
pub proof fn law_repeats_refuse(tensors: Seq<RawView>)
    ensures
        distinct_names(tensors) <==> !(exists|i: int| first_repeat(tensors, i)),
{
    if !distinct_names(tensors) {
        let (a, b) = choose|i: int, j: int|
            0 <= i < j < tensors.len() && #[trigger] tensors[i].name == #[trigger] tensors[j].name;
        assert(repeats(tensors, b));
        lemma_first_repeat(tensors, b);
    }
    if distinct_names(tensors) {
        assert forall|i: int| !first_repeat(tensors, i) by {
            if first_repeat(tensors, i) {
                let j = choose|j: int| 0 <= j < i && #[trigger] tensors[j].name == tensors[i].name;
                assert(tensors[j].name != tensors[i].name);
            }
        }
    }
}

proof fn lemma_first_repeat(tensors: Seq<RawView>, i: int)
    requires
        0 <= i < tensors.len(),
        repeats(tensors, i),
    ensures
        exists|k: int| first_repeat(tensors, k),
    decreases i,
{
    if exists|k: int| 0 <= k < i && repeats(tensors, k) {
        let k = choose|k: int| 0 <= k < i && repeats(tensors, k);
        lemma_first_repeat(tensors, k);
    } else {
        assert(first_repeat(tensors, i));
    }
}

/// A prefix is taken off the names that have it, and no other name changes.
pub proof fn law_prefixes_are_taken_off(prefix: Seq<char>, rest: Seq<char>, name: Seq<char>)
    ensures
        stripped(prefix + rest, Some(prefix)) == rest,
        stripped(name, Some(prefix)) == name || prefix + stripped(name, Some(prefix)) == name,
        stripped(name, None) == name,
{
    let whole = prefix + rest;
    assert(whole.subrange(0, prefix.len() as int) =~= prefix);
    assert(whole.subrange(prefix.len() as int, whole.len() as int) =~= rest);
    if text::has_prefix(name, prefix) {
        let r = text::without_prefix(name, prefix);
        assert(prefix + r =~= name) by {
            assert(name.subrange(0, prefix.len() as int) == prefix);
            assert forall|i: int| 0 <= i < prefix.len() implies name[i] == prefix[i] by {
                assert(name.subrange(0, prefix.len() as int)[i] == name[i]);
            }
        }
    }
}

/// Renaming changes nothing but names.
pub proof fn law_renaming_keeps_the_rest(tensors: Seq<RawView>, prefix: Option<Seq<char>>, i: int)
    requires
        0 <= i < tensors.len(),
    ensures
        renamed(tensors, prefix).len() == tensors.len(),
        renamed(tensors, prefix)[i].name == stripped(tensors[i].name, prefix),
        renamed(tensors, prefix)[i].shape == tensors[i].shape,
        renamed(tensors, prefix)[i].dtype == tensors[i].dtype,
        renamed(tensors, prefix)[i].data == tensors[i].data,
{
}

/// The parts follow each other in their order, each with all its tensors and its metadata.
pub proof fn law_parts_follow_each_other(parts: Seq<Checkpoint>, next: Checkpoint)
    ensures
        joined(Seq::empty()) == Seq::<RawView>::empty(),
        joined_metadata(Seq::empty()) == Seq::<(String, MetaValue)>::empty(),
        joined(parts.push(next)) == joined(parts) + elements::views(next.tensors@),
        joined_metadata(parts.push(next)) == joined_metadata(parts) + next.metadata@,
{
    assert(parts.push(next).drop_last() =~= parts);
}

/// How errors are worded.
pub proof fn law_errors_are_worded(name: String)
    ensures
        MergeError::NoInputs.text() == "no input files given"@,
        (MergeError::DuplicateName { name }).text() == "duplicate tensor name across inputs: "@ + name@,
{
}

} // verus!
