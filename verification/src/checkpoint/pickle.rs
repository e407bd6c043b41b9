//! Where the tensors of a pickle stand.
//!
//! A plain checkpoint holds its tensors at the top; one of a training run nests them in a dictionary.

use vstd::prelude::*;

verus! {

/// What to do once tensors were looked for.
#[derive(Debug, Clone, Copy, PartialEq, Eq, Structural)]
pub enum Step {
    /// Take the tensors that were found.
    Take,
    /// Look in the dictionary that training runs use.
    LookInside,
    /// There are none.
    GiveUp,
}

/// The dictionary that training runs use.
pub fn nested_key() -> (r: &'static str)
    ensures
        r@ == "state_dict"@,
{
    "state_dict"
}

/// What to do once tensors were looked for where the options say: the dictionary of training runs is
/// tried where the options name none and nothing was found.
pub fn first_step(found: usize, key_given: bool) -> (r: Step)
    ensures
        r == (if found > 0 {
            Step::Take
        } else if key_given {
            Step::GiveUp
        } else {
            Step::LookInside
        }),
{
    if found > 0 {
        Step::Take
    } else if key_given {
        Step::GiveUp
    } else {
        Step::LookInside
    }
}

/// What to do once the dictionary of training runs was tried, given how many tensors it holds, if it
/// could be read.
pub fn second_step(found: Option<usize>) -> (r: Step)
    ensures
        r == (match found {
            Some(n) => if n > 0 {
                Step::Take
            } else {
                Step::GiveUp
            },
            None => Step::GiveUp,
        }),
{
    match found {
        Some(n) => if n > 0 {
            Step::Take
        } else {
            Step::GiveUp
        },
        None => Step::GiveUp,
    }
}

/// What is said where there are no tensors.
pub open spec fn no_tensors_text(path: Seq<char>) -> Seq<char> {
    "no tensors found in "@ + path
        + " (if the checkpoint nests weights under a custom dict, pass --pickle-key <KEY>)"@
}

/// What is said where there are no tensors.
pub fn no_tensors(path: &str) -> (r: String)
    ensures
        r@ == no_tensors_text(path@),
{
    let mut out: String = "no tensors found in ".to_string();
    out.append(path);
    out.append(" (if the checkpoint nests weights under a custom dict, pass --pickle-key <KEY>)");
    out
}

/// How a file without tensors is reported.
pub proof fn law_errors_are_worded(path: Seq<char>)
    ensures
        no_tensors_text(path) == "no tensors found in "@ + path
            + " (if the checkpoint nests weights under a custom dict, pass --pickle-key <KEY>)"@,
{
}

} // verus!
