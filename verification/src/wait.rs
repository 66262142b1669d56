//! Timeout budgeting of the blocking wait primitive.
//!
//! `wait` blocks until a condition holds or a timeout elapses, waking up
//! on change notification for an attribute file's descriptor.  The caller
//! owns the descriptor, the condition and the clock; the decision what to
//! do next — return a result or block for at most so many milliseconds —
//! is computed here and is exact about the remaining budget.

use vstd::prelude::*;

verus! {

/// The next move of a wait loop.
#[derive(Debug, Clone, Copy, PartialEq, Eq, Structural)]
pub enum WaitStep {
    /// The wait is over with this result.
    Return(bool),
    /// Block on change notification for at most this many milliseconds;
    /// `-1` means without bound.
    Block(i32),
}

/// The first decision of a wait: if the condition already holds, the wait
/// returns `true` without blocking; otherwise it blocks on the full
/// timeout, or unboundedly when no timeout was given.
pub open spec fn spec_wait_start(cond: bool, timeout_ms: Option<u64>) -> WaitStep {
    if cond {
        WaitStep::Return(true)
    } else if timeout_ms is Some {
        WaitStep::Block(timeout_ms->0 as i32)
    } else {
        WaitStep::Block(-1i32)
    }
}

/// The decision after a wakeup, `elapsed_ms` milliseconds into the wait
/// with the condition re-checked as `cond`: an exhausted budget ends the
/// wait with `false`; otherwise a true condition ends it with `true`;
/// otherwise the loop blocks on the remaining budget.
pub open spec fn spec_wait_step(cond: bool, timeout_ms: Option<u64>, elapsed_ms: u64) -> WaitStep {
    if timeout_ms is Some {
        let t = timeout_ms->0;
        if elapsed_ms >= t {
            WaitStep::Return(false)
        } else if cond {
            WaitStep::Return(true)
        } else {
            WaitStep::Block((t - elapsed_ms) as i32)
        }
    } else {
        if cond {
            WaitStep::Return(true)
        } else {
            WaitStep::Block(-1i32)
        }
    }
}

/// Computes the first decision of a wait.
pub fn wait_start(cond: bool, timeout_ms: Option<u64>) -> (r: WaitStep)
    requires
        timeout_ms matches Some(t) ==> t <= 0x7fff_ffff,
    ensures
        r == spec_wait_start(cond, timeout_ms),
{
    if cond {
        WaitStep::Return(true)
    } else {
        match timeout_ms {
            Some(t) => WaitStep::Block(t as i32),
            None => WaitStep::Block(-1),
        }
    }
}

/// Computes the decision after a wakeup.
pub fn wait_step(cond: bool, timeout_ms: Option<u64>, elapsed_ms: u64) -> (r: WaitStep)
    requires
        timeout_ms matches Some(t) ==> t <= 0x7fff_ffff,
    ensures
        r == spec_wait_step(cond, timeout_ms, elapsed_ms),
{
    match timeout_ms {
        Some(t) => {
            if elapsed_ms >= t {
                WaitStep::Return(false)
            } else if cond {
                WaitStep::Return(true)
            } else {
                WaitStep::Block((t - elapsed_ms) as i32)
            }
        },
        None => {
            if cond {
                WaitStep::Return(true)
            } else {
                WaitStep::Block(-1i32)
            }
        },
    }
}

/// Whether a device's state-flag list contains `flag`: the condition of
/// the `wait until state contains` and `wait while state contains`
/// conveniences, and of the running/ramping/holding tests.
pub fn state_contains(state: &Vec<String>, flag: &str) -> (r: bool)
    ensures
        r == state@.map_values(|s: String| s@).contains(flag@),
{
    let ghost sv = state@.map_values(|s: String| s@);
    let mut i: usize = 0;
    while i < state.len()
        invariant
            sv == state@.map_values(|s: String| s@),
            sv.len() == state@.len(),
            0 <= i <= state@.len(),
            forall|k: int| 0 <= k < i ==> sv[k] != flag@,
        decreases state@.len() - i,
    {
        if crate::text::string_eq_str(&state[i], flag) {
            assert(sv[i as int] == flag@);
            return true;
        }
        i = i + 1;
    }
    assert(forall|k: int| 0 <= k < sv.len() ==> sv[k] != flag@);
    false
}

/// A wait whose condition already holds returns `true` at once, for any
/// timeout: no blocking step is ever issued.
pub proof fn lemma_wait_immediate(timeout_ms: Option<u64>)
    ensures
        spec_wait_start(true, timeout_ms) == WaitStep::Return(true),
{
}

/// Budget bounds of a bounded wait: the wait ends with `false` only once
/// at least the full timeout has elapsed, and every blocking step is
/// bounded by exactly the unspent remainder of the timeout, so cumulative
/// blocking never exceeds it.
pub proof fn lemma_wait_budget(cond: bool, t: u64, elapsed_ms: u64)
    requires
        t <= 0x7fff_ffff,
    ensures
        spec_wait_step(cond, Some(t), elapsed_ms) == WaitStep::Return(false) ==> elapsed_ms >= t,
        spec_wait_step(cond, Some(t), elapsed_ms) matches WaitStep::Block(b) ==> elapsed_ms < t
            && b == t - elapsed_ms,
{
}

} // verus!
