//! Linux: which inhibitors to take over D-Bus (logind for idle and sleep, the
//! screensaver for the display), whether an activation succeeded, and the
//! power source from what `/sys/class/power_supply` lists.

use vstd::prelude::*;

use super::InhibitFlags;
use crate::text::{str_eq, trim, trim_str};

verus! {

/// The inhibitors to ask for: logind's `idle` and `sleep` locks and a
/// screensaver inhibition.
#[derive(Debug, Clone, Copy, PartialEq, Eq, Structural)]
pub struct LinuxInhibitPlan {
    pub login1_idle: bool,
    pub login1_sleep: bool,
    pub screensaver: bool,
}

impl LinuxInhibitPlan {
    /// Whether anything is asked for at all.
    pub open spec fn wants_any(self) -> bool {
        self.login1_idle || self.login1_sleep || self.screensaver
    }
}

/// The inhibitors for `flags`: idle sleep is held off for idle, display or
/// user-activity assertions, system sleep for the system assertion, and the
/// screensaver for display or user-activity assertions.
pub fn linux_inhibit_plan(flags: InhibitFlags) -> (p: LinuxInhibitPlan)
    ensures
        p.login1_idle == (flags.prevent_idle_sleep || flags.prevent_display_sleep
            || flags.user_active),
        p.login1_sleep == flags.prevent_system_sleep,
        p.screensaver == (flags.prevent_display_sleep || flags.user_active),
{
    LinuxInhibitPlan {
        login1_idle: flags.prevent_idle_sleep || flags.prevent_display_sleep || flags.user_active,
        login1_sleep: flags.prevent_system_sleep,
        screensaver: flags.prevent_display_sleep || flags.user_active,
    }
}

/// `parts` joined with `sep` between each two.
pub open spec fn join(parts: Seq<Seq<char>>, sep: Seq<char>) -> Seq<char>
    decreases parts.len(),
{
    if parts.len() == 0 {
        seq![]
    } else if parts.len() == 1 {
        parts[0]
    } else {
        join(parts.drop_last(), sep) + sep + parts.last()
    }
}

/// Joins `parts` with `sep` between each two.
pub fn join_strings(parts: &Vec<String>, sep: &str) -> (r: String)
    ensures
        r@ == join(parts.deep_view(), sep@),
{
    let ghost all = parts.deep_view();
    let mut out = String::new();
    let mut i: usize = 0;
    assert(all.take(0) =~= Seq::<Seq<char>>::empty());
    while i < parts.len()
        invariant
            all == parts.deep_view(),
            i <= parts@.len(),
            out@ == join(all.take(i as int), sep@),
        decreases parts@.len() - i,
    {
        let ghost t = all.take(i + 1);
        assert(t.drop_last() =~= all.take(i as int));
        assert(t.last() == parts@[i as int]@);
        if i > 0 {
            out.append(sep);
        } else {
            assert(out@ =~= Seq::<char>::empty());
        }
        out.append(parts[i].as_str());
        i = i + 1;
    }
    assert(all.take(parts@.len() as int) =~= all);
    out
}

/// The error when nothing could be acquired.
pub open spec fn no_inhibitor_message(errors: Seq<Seq<char>>) -> Seq<char> {
    "failed to acquire any sleep inhibitor on Linux: "@ + join(errors, "; "@)
}

/// Whether an activation that asked for `plan` succeeded, given how many logind
/// locks and screensaver inhibitions were acquired and the errors met: with
/// nothing asked for it succeeds; otherwise it fails exactly when nothing was
/// acquired, and the error lists every failure.
pub fn linux_activation_outcome(
    plan: LinuxInhibitPlan,
    login1_acquired: usize,
    screensaver_acquired: usize,
    errors: &Vec<String>,
) -> (r: Result<(), String>)
    ensures
        match r {
            Ok(()) => !plan.wants_any() || login1_acquired > 0 || screensaver_acquired > 0,
            Err(m) => plan.wants_any() && login1_acquired == 0 && screensaver_acquired == 0 && m@
                == no_inhibitor_message(errors.deep_view()),
        },
{
    if !(plan.login1_idle || plan.login1_sleep || plan.screensaver) {
        return Ok(());
    }
    if login1_acquired == 0 && screensaver_acquired == 0 {
        let mut m = String::from_str("failed to acquire any sleep inhibitor on Linux: ");
        let joined = join_strings(errors, "; ");
        m.append(joined.as_str());
        return Err(m);
    }
    Ok(())
}

/// A power supply as listed under `/sys/class/power_supply`: the contents of
/// its `type` and `online` files, where they could be read.
#[derive(Debug, Clone)]
pub struct PowerSupply {
    pub kind: Option<String>,
    pub online: Option<String>,
}

/// `PowerSupply` with its texts as character sequences.
pub struct PowerSupplyView {
    pub kind: Option<Seq<char>>,
    pub online: Option<Seq<char>>,
}

impl View for PowerSupply {
    type V = PowerSupplyView;

    open spec fn view(&self) -> PowerSupplyView {
        PowerSupplyView {
            kind: match self.kind {
                Some(k) => Some(k@),
                None => None,
            },
            online: match self.online {
                Some(o) => Some(o@),
                None => None,
            },
        }
    }
}

/// A mains supply: its type reads `Mains` or `AC`.
pub open spec fn is_mains(p: PowerSupplyView) -> bool {
    match p.kind {
        Some(k) => trim(k) == "Mains"@ || trim(k) == "AC"@,
        None => false,
    }
}

/// A supply that is online: its `online` file reads `1`.
pub open spec fn is_online(p: PowerSupplyView) -> bool {
    match p.online {
        Some(o) => trim(o) == "1"@,
        None => false,
    }
}

/// The power source: unknown (`None`) without any mains supply, else whether
/// some mains supply is online.
pub open spec fn spec_ac_power(ps: Seq<PowerSupplyView>) -> Option<bool> {
    if exists|i: int| 0 <= i < ps.len() && is_mains(#[trigger] ps[i]) {
        Some(exists|i: int| 0 <= i < ps.len() && is_mains(#[trigger] ps[i]) && is_online(ps[i]))
    } else {
        None
    }
}

/// The views of the supplies.
pub open spec fn supplies_view(ps: Seq<PowerSupply>) -> Seq<PowerSupplyView> {
    ps.map_values(|p: PowerSupply| p@)
}

/// Reads the power source from the supplies that the system lists.
pub fn ac_power_from_supplies(supplies: &[PowerSupply]) -> (r: Option<bool>)
    ensures
        r == spec_ac_power(supplies_view(supplies@)),
{
    let ghost ps = supplies_view(supplies@);
    let mut saw_mains = false;
    let mut any_online = false;
    let mut i: usize = 0;
    while i < supplies.len()
        invariant
            ps == supplies_view(supplies@),
            i <= supplies@.len(),
            saw_mains == exists|j: int| 0 <= j < i && is_mains(#[trigger] ps[j]),
            any_online == exists|j: int| 0 <= j < i && is_mains(#[trigger] ps[j]) && is_online(ps[j]),
        decreases supplies@.len() - i,
    {
        let p = &supplies[i];
        assert(ps[i as int] == p@);
        let mains = match &p.kind {
            Some(k) => {
                let t = trim_str(k.as_str());
                str_eq(t, "Mains") || str_eq(t, "AC")
            },
            None => false,
        };
        if mains {
            saw_mains = true;
            let online = match &p.online {
                Some(o) => str_eq(trim_str(o.as_str()), "1"),
                None => false,
            };
            if online {
                any_online = true;
            }
        }
        i = i + 1;
    }
    if saw_mains {
        Some(any_online)
    } else {
        None
    }
}

} // verus!
