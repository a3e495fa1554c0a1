//! Platforms where sleep cannot be inhibited.

use vstd::prelude::*;

use super::InhibitFlags;

verus! {

/// Nothing is held on these platforms.
#[derive(Debug)]
pub struct Inhibitors;

/// The refusal on macOS, where the system's own `caffeinate` should be used.
pub open spec fn macos_refusal() -> Seq<char> {
    "sleep inhibition is not implemented in this build; use the system /usr/bin/caffeinate"@
}

/// The refusal on other platforms.
pub open spec fn other_refusal() -> Seq<char> {
    "sleep inhibition is not supported on this platform"@
}

/// Always refuses, so that this build never stands in for a working
/// `caffeinate` while the machine still goes to sleep.
pub fn activate(_flags: InhibitFlags, on_macos: bool) -> (r: Result<Inhibitors, String>)
    ensures
        match r {
            Ok(_) => false,
            Err(m) => m@ == if on_macos {
                macos_refusal()
            } else {
                other_refusal()
            },
        },
{
    if on_macos {
        Err(
            String::from_str(
                "sleep inhibition is not implemented in this build; use the system /usr/bin/caffeinate",
            ),
        )
    } else {
        Err(String::from_str("sleep inhibition is not supported on this platform"))
    }
}

/// The power source is never known on these platforms.
pub fn on_ac_power() -> (r: Option<bool>)
    ensures
        r is None,
{
    None
}

} // verus!
