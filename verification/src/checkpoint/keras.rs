//! Keras archives and the datasets of HDF5 files.

use vstd::prelude::*;

use crate::checkpoint::elements::Stored;
use crate::text;

verus! {

/// Entry `i` is the first with the ending.
pub open spec fn first_ending(names: Seq<String>, ending: Seq<char>, i: int) -> bool {
    &&& 0 <= i < names.len()
    &&& text::has_suffix(names[i]@, ending)
    &&& forall|j: int| 0 <= j < i ==> !text::has_suffix(#[trigger] names[j]@, ending)
}

/// Whether an entry has the ending.
pub open spec fn some_ending(names: Seq<String>, ending: Seq<char>) -> bool {
    exists|i: int| 0 <= i < names.len() && text::has_suffix(#[trigger] names[i]@, ending)
}

fn find_ending(names: &Vec<String>, ending: &str) -> (r: Option<usize>)
    ensures
        match r {
            Some(i) => first_ending(names@, ending@, i as int),
            None => !some_ending(names@, ending@),
        },
{
    let mut i: usize = 0;
    while i < names.len()
        invariant
            i <= names@.len(),
            forall|j: int| 0 <= j < i ==> !text::has_suffix(#[trigger] names@[j]@, ending@),
        decreases names@.len() - i,
    {
        if text::ends_with(names[i].as_str(), ending) {
            return Some(i);
        }
        i += 1;
    }
    None
}

/// The entry of an archive that holds the weights: the first that ends in `.weights.h5`, else the
/// first that ends in `.h5`.
pub fn weights_entry(names: &Vec<String>) -> (r: Option<usize>)
    ensures
        match r {
            Some(i) => if some_ending(names@, ".weights.h5"@) {
                first_ending(names@, ".weights.h5"@, i as int)
            } else {
                first_ending(names@, ".h5"@, i as int)
            },
            None => !some_ending(names@, ".weights.h5"@) && !some_ending(names@, ".h5"@),
        },
{
    match find_ending(names, ".weights.h5") {
        Some(i) => Some(i),
        None => find_ending(names, ".h5"),
    }
}

/// The tensor's name for a dataset's path: without leading slashes, and with dots for the others.
pub open spec fn named(path: Seq<char>) -> Seq<char> {
    text::replaced(path.skip(text::leading(path, '/') as int), '/', "."@)
}

/// The tensor's name for a dataset's path.
pub fn dataset_name(path: &str) -> (r: String)
    ensures
        r@ == named(path@),
{
    text::replace_char(text::trim_leading(path, '/'), '/', ".")
}

/// The type of a dataset's elements; integers and floats by the number of their bytes.
#[derive(Debug, Clone, Copy, PartialEq, Eq, Structural)]
pub enum DatasetType {
    Float(u8),
    Integer(u8),
    Unsigned(u8),
    Boolean,
    /// Texts, compounds and the like.
    NotNumeric,
}

/// How a dataset is read.
#[derive(Debug, Clone, Copy, PartialEq, Eq, Structural)]
pub enum DatasetPlan {
    /// As singles, which keep their bytes.
    Single,
    /// As halves, which keep their bytes.
    Half,
    /// As this type, which is carried over to single precision.
    Carried(Stored),
    /// Not at all.
    Skipped,
}

/// How a dataset of a type is read.
pub open spec fn plan_of(t: DatasetType) -> DatasetPlan {
    match t {
        DatasetType::Float(n) => if n == 4 {
            DatasetPlan::Single
        } else if n == 2 {
            DatasetPlan::Half
        } else if n == 8 {
            DatasetPlan::Carried(Stored::F64)
        } else {
            DatasetPlan::Skipped
        },
        DatasetType::Integer(n) => if n == 1 {
            DatasetPlan::Carried(Stored::I8)
        } else if n == 2 {
            DatasetPlan::Carried(Stored::I16)
        } else if n == 4 {
            DatasetPlan::Carried(Stored::I32)
        } else if n == 8 {
            DatasetPlan::Carried(Stored::I64)
        } else {
            DatasetPlan::Skipped
        },
        DatasetType::Unsigned(n) => if n == 1 {
            DatasetPlan::Carried(Stored::U8)
        } else if n == 2 {
            DatasetPlan::Carried(Stored::U16)
        } else if n == 4 {
            DatasetPlan::Carried(Stored::U32)
        } else if n == 8 {
            DatasetPlan::Carried(Stored::U64)
        } else {
            DatasetPlan::Skipped
        },
        DatasetType::Boolean => DatasetPlan::Carried(Stored::Bool),
        DatasetType::NotNumeric => DatasetPlan::Skipped,
    }
}

/// How a dataset of a type is read.
pub fn dataset_plan(t: DatasetType) -> (r: DatasetPlan)
    ensures
        r == plan_of(t),
{
    match t {
        DatasetType::Float(4) => DatasetPlan::Single,
        DatasetType::Float(2) => DatasetPlan::Half,
        DatasetType::Float(8) => DatasetPlan::Carried(Stored::F64),
        DatasetType::Integer(1) => DatasetPlan::Carried(Stored::I8),
        DatasetType::Integer(2) => DatasetPlan::Carried(Stored::I16),
        DatasetType::Integer(4) => DatasetPlan::Carried(Stored::I32),
        DatasetType::Integer(8) => DatasetPlan::Carried(Stored::I64),
        DatasetType::Unsigned(1) => DatasetPlan::Carried(Stored::U8),
        DatasetType::Unsigned(2) => DatasetPlan::Carried(Stored::U16),
        DatasetType::Unsigned(4) => DatasetPlan::Carried(Stored::U32),
        DatasetType::Unsigned(8) => DatasetPlan::Carried(Stored::U64),
        DatasetType::Boolean => DatasetPlan::Carried(Stored::Bool),
        _ => DatasetPlan::Skipped,
    }
}

/// What is done with numbers of each width: singles and halves are kept, other numbers of up to eight
/// bytes are carried over, and the rest is passed over.
pub proof fn law_plans_by_width(n: u8)
    ensures
        plan_of(DatasetType::Float(4)) == DatasetPlan::Single,
        plan_of(DatasetType::Float(2)) == DatasetPlan::Half,
        plan_of(DatasetType::Float(8)) == DatasetPlan::Carried(Stored::F64),
        plan_of(DatasetType::Integer(1)) == DatasetPlan::Carried(Stored::I8),
        plan_of(DatasetType::Integer(2)) == DatasetPlan::Carried(Stored::I16),
        plan_of(DatasetType::Integer(4)) == DatasetPlan::Carried(Stored::I32),
        plan_of(DatasetType::Integer(8)) == DatasetPlan::Carried(Stored::I64),
        plan_of(DatasetType::Unsigned(1)) == DatasetPlan::Carried(Stored::U8),
        plan_of(DatasetType::Unsigned(2)) == DatasetPlan::Carried(Stored::U16),
        plan_of(DatasetType::Unsigned(4)) == DatasetPlan::Carried(Stored::U32),
        plan_of(DatasetType::Unsigned(8)) == DatasetPlan::Carried(Stored::U64),
        plan_of(DatasetType::Boolean) == DatasetPlan::Carried(Stored::Bool),
        plan_of(DatasetType::NotNumeric) == DatasetPlan::Skipped,
        n != 2 && n != 4 && n != 8 ==> plan_of(DatasetType::Float(n)) == DatasetPlan::Skipped,
        n != 1 && n != 2 && n != 4 && n != 8 ==> plan_of(DatasetType::Integer(n)) == DatasetPlan::Skipped
            && plan_of(DatasetType::Unsigned(n)) == DatasetPlan::Skipped,
{
}

/// A carried number has as many bytes as the dataset says.
pub proof fn law_plans_keep_widths(t: DatasetType, n: u8)
    requires
        t == DatasetType::Integer(n) || t == DatasetType::Unsigned(n) || t == DatasetType::Float(n),
    ensures
        plan_of(t) matches DatasetPlan::Carried(kind) ==> kind.width() == n,
{
}

/// A dataset is named by its path with dots for slashes, whatever slashes the path starts with.
pub proof fn law_paths_become_names(path: Seq<char>, i: int)
    ensures
        named(seq!['/'] + path) == named(path),
        path.len() > 0 && path[0] != '/' ==> named(path).len() == path.len(),
        path.len() > 0 && path[0] != '/' && 0 <= i < path.len() ==> named(path)[i] == (if path[i] == '/' {
            '.'
        } else {
            path[i]
        }),
{
    let longer = seq!['/'] + path;
    assert(longer.skip(1) =~= path);
    lemma_leading(path);
    let k = text::leading(path, '/') as int;
    assert(text::leading(longer, '/') == 1 + k);
    assert(longer.skip(1 + k) =~= path.skip(k));
    if path.len() > 0 && path[0] != '/' {
        assert(path.skip(0) =~= path);
        reveal_strlit(".");
        assert("."@ =~= seq!['.']);
        lemma_replaced(path, i);
    }
}

proof fn lemma_leading(path: Seq<char>)
    ensures
        text::leading(path, '/') <= path.len(),
    decreases path.len(),
{
    if path.len() > 0 && path[0] == '/' {
        lemma_leading(path.skip(1));
    }
}

proof fn lemma_replaced(path: Seq<char>, i: int)
    ensures
        text::replaced(path, '/', seq!['.']).len() == path.len(),
        0 <= i < path.len() ==> text::replaced(path, '/', seq!['.'])[i] == (if path[i] == '/' {
            '.'
        } else {
            path[i]
        }),
    decreases path.len(),
{
    if path.len() > 0 {
        lemma_replaced(path.drop_last(), i);
    }
}

/// The first name with an ending has it, and no name before it does; some name has the ending exactly
/// where there is a first one.
pub proof fn law_first_with_an_ending(names: Seq<String>, before: Seq<char>, ending: Seq<char>, i: int, j: int)
    requires
        0 <= j < names.len(),
    ensures
        names[j]@ == before + ending ==> some_ending(names, ending),
        names[j]@ == before + ending && first_ending(names, ending, i) ==> i <= j,
        first_ending(names, ending, i) ==> 0 <= i < names.len() && names[i]@.len() >= ending.len() && names[i]@.skip(
            names[i]@.len() - ending.len(),
        ) == ending,
        first_ending(names, ending, i) ==> some_ending(names, ending),
{
    if names[j]@ == before + ending {
        text::law_prefixes_and_suffixes(before, ending);
        assert(text::has_suffix(names[j]@, ending));
    }
    if first_ending(names, ending, i) {
        assert(text::has_suffix(names[i]@, ending));
        assert(names[i]@.skip(names[i]@.len() - ending.len()) =~= ending);
    }
}

/// Where some name has the ending, there is a first one that has it.
pub proof fn law_some_name_is_first(names: Seq<String>, ending: Seq<char>, j: int)
    requires
        0 <= j < names.len(),
        text::has_suffix(names[j]@, ending),
    ensures
        exists|i: int| 0 <= i <= j && #[trigger] first_ending(names, ending, i),
    decreases j,
{
    if exists|k: int| 0 <= k < j && text::has_suffix(#[trigger] names[k]@, ending) {
        let k = choose|k: int| 0 <= k < j && text::has_suffix(#[trigger] names[k]@, ending);
        law_some_name_is_first(names, ending, k);
        let i = choose|i: int| 0 <= i <= k && #[trigger] first_ending(names, ending, i);
        assert(first_ending(names, ending, i));
    } else {
        assert(first_ending(names, ending, j));
    }
}

} // verus!
