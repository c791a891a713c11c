//! An execution trace for the cube-and-add recurrence
//! `f(i + 1) = f(i)^3 + 42`: the sequential computation and the
//! one-column trace it fills, step by step.

use vstd::prelude::*;

use crate::field::{pow_mod, Felt, MODULUS};

verus! {

/// The value after `steps` applications of `x -> x^3 + 42` in the field.
pub open spec fn work_iter(x: int, steps: nat) -> int
    decreases steps,
{
    if steps == 0 {
        x
    } else {
        (pow_mod(work_iter(x, (steps - 1) as nat), 3) + 42) % (MODULUS as int)
    }
}

/// Apply the recurrence `n - 1` times, as the trace of length `n` does
/// (zero times for an empty or one-row trace).
pub fn do_work(start: Felt, n: usize) -> (r: Felt)
    ensures
        r@ == work_iter(start@, if n == 0 {
            0nat
        } else {
            (n - 1) as nat
        }),
{
    let mut result = start;
    let mut i: usize = 1;
    while i < n
        invariant
            1 <= i,
            n == 0 ==> i == 1,
            n > 0 ==> i <= n,
            result@ == work_iter(start@, (i - 1) as nat),
        decreases n - i,
    {
        result = result.pow(3).add(Felt::from_u64(42));
        i = i + 1;
    }
    result
}

/// The one-column execution trace of the recurrence: row `i` holds the
/// value after `i` steps, starting from `start`.
pub fn build_do_work_trace(start: Felt, n: usize) -> (trace: Vec<Felt>)
    ensures
        trace@.len() == n,
        forall|i: int| 0 <= i < n ==> (#[trigger] trace@[i])@ == work_iter(start@, i as nat),
{
    let mut trace: Vec<Felt> = Vec::new();
    let mut state = start;
    for i in 0..n
        invariant
            trace@.len() == i,
            state@ == work_iter(start@, i as nat),
            forall|j: int| 0 <= j < i ==> (#[trigger] trace@[j])@ == work_iter(start@, j as nat),
    {
        trace.push(state);
        state = state.pow(3).add(Felt::from_u64(42));
    }
    trace
}

} // verus!
