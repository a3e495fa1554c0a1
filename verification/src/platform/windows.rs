//! Windows: the thread execution state to request, and how the answers of
//! `GetExitCodeProcess` and `GetSystemPowerStatus` are read.

use vstd::prelude::*;

use super::InhibitFlags;

verus! {

/// `ES_CONTINUOUS` of `windows_sys`: the state lasts until it is changed.
#[verifier::external_body]
fn es_continuous() -> (r: u32)
    ensures
        r == 0x8000_0000u32,
{
    windows_sys::Win32::System::Power::ES_CONTINUOUS
}

/// `ES_SYSTEM_REQUIRED` of `windows_sys`: the system must not sleep.
#[verifier::external_body]
fn es_system_required() -> (r: u32)
    ensures
        r == 0x1u32,
{
    windows_sys::Win32::System::Power::ES_SYSTEM_REQUIRED
}

/// `ES_DISPLAY_REQUIRED` of `windows_sys`: the display must stay on.
#[verifier::external_body]
fn es_display_required() -> (r: u32)
    ensures
        r == 0x2u32,
{
    windows_sys::Win32::System::Power::ES_DISPLAY_REQUIRED
}

/// `ES_AWAYMODE_REQUIRED` of `windows_sys`: away mode instead of sleep.
#[verifier::external_body]
fn es_awaymode_required() -> (r: u32)
    ensures
        r == 0x40u32,
{
    windows_sys::Win32::System::Power::ES_AWAYMODE_REQUIRED
}

/// The execution state for `flags`: always continuous; the system is
/// required for idle, system or user-activity assertions, the display for
/// display or user-activity assertions, and away mode for system sleep.
pub open spec fn spec_execution_state(f: InhibitFlags) -> u32 {
    0x8000_0000u32 | (if f.prevent_idle_sleep || f.prevent_system_sleep || f.user_active {
        0x1u32
    } else {
        0u32
    }) | (if f.prevent_display_sleep || f.user_active {
        0x2u32
    } else {
        0u32
    }) | (if f.prevent_system_sleep {
        0x40u32
    } else {
        0u32
    })
}

/// The execution state to set for `flags`.
pub fn desired_execution_state(flags: InhibitFlags) -> (state: u32)
    ensures
        state == spec_execution_state(flags),
{
    let system = if flags.prevent_idle_sleep || flags.prevent_system_sleep || flags.user_active {
        es_system_required()
    } else {
        0
    };
    let display = if flags.prevent_display_sleep || flags.user_active {
        es_display_required()
    } else {
        0
    };
    let away = if flags.prevent_system_sleep {
        es_awaymode_required()
    } else {
        0
    };
    es_continuous() | system | display | away
}

/// The state to request with `SetThreadExecutionState`, or `None` when
/// nothing beyond `ES_CONTINUOUS` is asked for and no call is made.
pub fn execution_state_request(flags: InhibitFlags) -> (r: Option<u32>)
    ensures
        r == if spec_execution_state(flags) == 0x8000_0000u32 {
            None
        } else {
            Some(spec_execution_state(flags))
        },
{
    let state = desired_execution_state(flags);
    if state == es_continuous() {
        None
    } else {
        Some(state)
    }
}

/// The exit code that `GetExitCodeProcess` reports for a running process.
pub const STILL_ACTIVE: u32 = 259;

/// Whether a process runs, from the result of `GetExitCodeProcess` (non-zero
/// on success) and the exit code it wrote.
pub fn process_still_active(call_result: i32, code: u32) -> (r: bool)
    ensures
        r == (call_result != 0 && code == STILL_ACTIVE),
{
    call_result != 0 && code == STILL_ACTIVE
}

/// The power source from the result of `GetSystemPowerStatus` (non-zero on
/// success) and its `ACLineStatus`: 0 is battery, 1 is mains, anything else
/// (255) is unknown.
pub fn ac_power_from_status(call_result: i32, ac_line_status: u8) -> (r: Option<bool>)
    ensures
        r == if call_result == 0 {
            None
        } else if ac_line_status == 0 {
            Some(false)
        } else if ac_line_status == 1 {
            Some(true)
        } else {
            None::<bool>
        },
{
    if call_result == 0 {
        return None;
    }
    match ac_line_status {
        0 => Some(false),
        1 => Some(true),
        _ => None,
    }
}

/// Each assertion sets its bits of the execution state and no other bit is
/// ever set: `ES_CONTINUOUS` always; `ES_SYSTEM_REQUIRED` exactly for idle,
/// system or user-activity assertions; `ES_DISPLAY_REQUIRED` exactly for display
/// or user-activity assertions; `ES_AWAYMODE_REQUIRED` exactly for system sleep.
pub proof fn lemma_execution_state_bits(f: InhibitFlags)
    ensures
        spec_execution_state(f) & 0x8000_0000u32 != 0,
        (spec_execution_state(f) & 0x1u32 != 0) == (f.prevent_idle_sleep || f.prevent_system_sleep
            || f.user_active),
        (spec_execution_state(f) & 0x2u32 != 0) == (f.prevent_display_sleep || f.user_active),
        (spec_execution_state(f) & 0x40u32 != 0) == f.prevent_system_sleep,
        spec_execution_state(f) & !0x8000_0043u32 == 0,
{
    let a = f.prevent_idle_sleep || f.prevent_system_sleep || f.user_active;
    let b = f.prevent_display_sleep || f.user_active;
    let c = f.prevent_system_sleep;
    let x: u32 = if a { 0x1u32 } else { 0u32 };
    let y: u32 = if b { 0x2u32 } else { 0u32 };
    let z: u32 = if c { 0x40u32 } else { 0u32 };
    let s: u32 = spec_execution_state(f);
    assert(s == 0x8000_0000u32 | x | y | z);
    assert({
        &&& s & 0x8000_0000u32 != 0
        &&& (s & 0x1u32 != 0) == a
        &&& (s & 0x2u32 != 0) == b
        &&& (s & 0x40u32 != 0) == c
        &&& s & !0x8000_0043u32 == 0
    }) by (bit_vector)
        requires
            s == 0x8000_0000u32 | x | y | z,
            x == if a { 0x1u32 } else { 0u32 },
            y == if b { 0x2u32 } else { 0u32 },
            z == if c { 0x40u32 } else { 0u32 },
    ;
}

} // verus!
