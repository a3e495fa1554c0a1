//! Holding the assertions until the first of: an interrupt, the end of the
//! watched process, the timeout; and the exit code of a utility that was run.

use vstd::prelude::*;

verus! {

/// How long the hold loop sleeps between two checks, in milliseconds.
pub const HOLD_POLL_MILLIS: u64 = 100;

/// The exit code of `caffeinate` after holding without a utility.
pub const HOLD_EXIT_CODE: i32 = 0;

/// Whether the hold loop ends now: on an interrupt, when the watched process
/// (if any) is gone, or when the deadline (if any) has passed.
pub open spec fn spec_hold_ends(
    interrupted: bool,
    watched_alive: Option<bool>,
    deadline_passed: Option<bool>,
) -> bool {
    interrupted || watched_alive == Some(false) || deadline_passed == Some(true)
}

/// Decides whether the hold loop ends. `watched_alive` is `None` when no
/// process is watched, `deadline_passed` is `None` when there is no timeout.
pub fn hold_ends(interrupted: bool, watched_alive: Option<bool>, deadline_passed: Option<bool>) -> (r:
    bool)
    ensures
        r == spec_hold_ends(interrupted, watched_alive, deadline_passed),
{
    if interrupted {
        return true;
    }
    if let Some(alive) = watched_alive {
        if !alive {
            return true;
        }
    }
    if let Some(passed) = deadline_passed {
        if passed {
            return true;
        }
    }
    false
}

/// The exit code that `caffeinate` passes on from a utility that ended with
/// exit `code`, or was ended by `signal`: the code, else 128 plus the signal
/// number, else 1.
pub open spec fn spec_exit_code(code: Option<i32>, signal: Option<i32>) -> int {
    match code {
        Some(c) => c as int,
        None => match signal {
            Some(s) => 128 + s,
            None => 1,
        },
    }
}

/// The exit code that `caffeinate` passes on from a utility.
pub fn exit_code(code: Option<i32>, signal: Option<i32>) -> (r: i32)
    requires
        code is None && signal is Some ==> signal->0 <= i32::MAX - 128,
    ensures
        r as int == spec_exit_code(code, signal),
{
    if let Some(c) = code {
        return c;
    }
    if let Some(s) = signal {
        return 128 + s;
    }
    1
}

} // verus!

verus! {

/// The hold ends on an interrupt, when the watched process is gone, and when
/// the deadline has passed; while none of these holds it goes on, with or
/// without a watched process or a timeout.
pub proof fn lemma_hold_ends_exactly_on_its_conditions(
    interrupted: bool,
    watched_alive: Option<bool>,
    deadline_passed: Option<bool>,
)
    ensures
        interrupted ==> spec_hold_ends(interrupted, watched_alive, deadline_passed),
        watched_alive == Some(false) ==> spec_hold_ends(interrupted, watched_alive, deadline_passed),
        deadline_passed == Some(true) ==> spec_hold_ends(interrupted, watched_alive, deadline_passed),
        (!interrupted && watched_alive != Some(false) && deadline_passed != Some(true))
            ==> !spec_hold_ends(interrupted, watched_alive, deadline_passed),
{
}

} // verus!

verus! {

/// A utility's own exit code is passed on unchanged; one ended by a signal
/// gives 128 plus the signal number; with neither, the code is 1.
pub proof fn lemma_exit_code_passes_on(code: Option<i32>, signal: Option<i32>)
    ensures
        code matches Some(c) ==> spec_exit_code(code, signal) == c as int,
        (code is None && signal is Some) ==> spec_exit_code(code, signal) == 128 + signal->0 as int,
        (code is None && signal is None) ==> spec_exit_code(code, signal) == 1,
{
}

} // verus!
