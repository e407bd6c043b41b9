//! The stream of numbers behind the noise of a column.

use vstd::prelude::*;

verus! {

/// Where the stream starts.
pub const START: u64 = 0x2545_f491_4f6c_dd1d;

/// One step of the stream.
pub open spec fn stepped(s: u64) -> u64 {
    let a = s ^ (s << 13);
    let b = a ^ (a >> 7);
    b ^ (b << 17)
}

/// The state after `n` steps.
pub open spec fn state_after(n: nat) -> u64
    decreases n,
{
    if n == 0 {
        START
    } else {
        stepped(state_after((n - 1) as nat))
    }
}

/// The numerator, over 2^53, of the `i`th number of the stream.
pub open spec fn numerator(i: int) -> u64 {
    state_after((i + 1) as nat) / 2048
}

/// The first numerators of the stream, two for each of `n` values.
pub fn noise_numerators(n: usize) -> (r: Vec<(u64, u64)>)
    ensures
        r@.len() == n,
        forall|i: int| 0 <= i < n ==> (#[trigger] r@[i]).0 == numerator(2 * i) && r@[i].1 == numerator(2 * i + 1),
        forall|i: int| 0 <= i < n ==> (#[trigger] r@[i]).0 < 0x20_0000_0000_0000 && r@[i].1 < 0x20_0000_0000_0000,
{
    let mut out: Vec<(u64, u64)> = Vec::new();
    let mut state: u64 = START;
    let mut i: usize = 0;
    while i < n
        invariant
            i <= n,
            out@.len() == i,
            state == state_after((2 * i) as nat),
            forall|q: int|
                0 <= q < i ==> (#[trigger] out@[q]).0 == numerator(2 * q) && out@[q].1 == numerator(2 * q + 1),
            forall|q: int|
                0 <= q < i ==> (#[trigger] out@[q]).0 < 0x20_0000_0000_0000 && out@[q].1 < 0x20_0000_0000_0000,
        decreases n - i,
    {
        let first: u64 = step(state);
        let second: u64 = step(first);
        assert(first == state_after((2 * i + 1) as nat));
        assert(second == state_after((2 * i + 2) as nat));
        out.push((first / 2048, second / 2048));
        state = second;
        i += 1;
    }
    out
}

fn step(s: u64) -> (r: u64)
    ensures
        r == stepped(s),
{
    let a: u64 = s ^ (s << 13);
    let b: u64 = a ^ (a >> 7);
    b ^ (b << 17)
}

/// The stream never stands still at zero.
pub proof fn law_stream_is_not_zero(n: nat)
    ensures
        state_after(n) != 0,
    decreases n,
{
    if n > 0 {
        law_stream_is_not_zero((n - 1) as nat);
        lemma_step_keeps_nonzero(state_after((n - 1) as nat));
    }
}

proof fn lemma_step_keeps_nonzero(s: u64)
    by (bit_vector)
    requires
        s != 0,
    ensures
        stepped(s) != 0,
{
}

/// Each state is the one before shifted and combined three times, from one fixed state on, and a
/// numerator is the upper 53 bits of a state.
pub proof fn law_states_follow(n: nat, i: int)
    requires
        0 <= i,
    ensures
        state_after(0) == 0x2545_f491_4f6c_dd1d,
        ({
            let s = state_after(n);
            let a = s ^ (s << 13);
            let b = a ^ (a >> 7);
            state_after(n + 1) == b ^ (b << 17)
        }),
        numerator(i) * 2048 <= state_after((i + 1) as nat) < (numerator(i) + 1) * 2048,
{
}

} // verus!
