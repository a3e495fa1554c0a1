//! What each platform is asked to inhibit, and how its answers are read.

pub mod linux;
pub mod noop;
pub mod windows;

use vstd::prelude::*;

verus! {

/// The kinds of sleep that the platform layer is asked to prevent.
#[derive(Debug, Clone, Copy, Default)]
pub struct InhibitFlags {
    pub prevent_display_sleep: bool,
    pub prevent_idle_sleep: bool,
    pub prevent_system_sleep: bool,
    pub user_active: bool,
}

} // verus!
