//! The options of a run, their normalisation, and the plan that a run follows.

use vstd::prelude::*;

use crate::platform::InhibitFlags;

verus! {

/// The assertions that were asked for on the command line.
#[derive(Debug, Clone, Copy, Default)]
pub struct Assertions {
    pub display: bool,
    pub idle: bool,
    pub disk: bool,
    pub system: bool,
    pub user_active: bool,
}

impl Assertions {
    /// Whether any assertion is set.
    pub open spec fn holds_any(self) -> bool {
        self.display || self.idle || self.disk || self.system || self.user_active
    }

    /// Whether any assertion is set.
    pub fn any(self) -> (r: bool)
        ensures
            r == self.holds_any(),
    {
        self.display || self.idle || self.disk || self.system || self.user_active
    }
}

/// The parsed command line: assertions, an optional timeout in seconds, an
/// optional process to wait for, and the utility to run with its arguments.
#[derive(Debug, Clone)]
pub struct Options {
    pub assertions: Assertions,
    pub timeout_secs: Option<u64>,
    pub wait_pid: Option<u32>,
    pub utility: Vec<String>,
}

/// `Options` with the utility's words as character sequences.
pub struct OptionsView {
    pub assertions: Assertions,
    pub timeout_secs: Option<u64>,
    pub wait_pid: Option<u32>,
    pub utility: Seq<Seq<char>>,
}

impl View for Options {
    type V = OptionsView;

    open spec fn view(&self) -> OptionsView {
        OptionsView {
            assertions: self.assertions,
            timeout_secs: self.timeout_secs,
            wait_pid: self.wait_pid,
            utility: self.utility.deep_view(),
        }
    }
}

/// Why a run could not go ahead.
#[derive(Debug)]
pub enum Error {
    /// The command line is malformed; the text says how.
    Usage(String),
    /// The platform could not do what was asked; the text says what failed.
    Runtime(String),
}

/// `Error` with its text as a character sequence.
pub enum ErrorView {
    Usage(Seq<char>),
    Runtime(Seq<char>),
}

impl View for Error {
    type V = ErrorView;

    open spec fn view(&self) -> ErrorView {
        match self {
            Error::Usage(s) => ErrorView::Usage(s@),
            Error::Runtime(s) => ErrorView::Runtime(s@),
        }
    }
}

impl Error {
    /// The text of the error, as it is shown to the user.
    pub fn message(&self) -> (r: String)
        ensures
            r@ == match self@ {
                ErrorView::Usage(s) => s,
                ErrorView::Runtime(s) => s,
            },
    {
        match self {
            Error::Usage(s) => s.clone(),
            Error::Runtime(s) => s.clone(),
        }
    }
}

/// The options after the defaults are applied: with no assertion the idle
/// assertion is made, and a user-activity assertion with neither a timeout nor
/// a utility lasts five seconds.
pub open spec fn spec_apply_defaults(o: OptionsView) -> OptionsView {
    let a = if o.assertions.holds_any() {
        o.assertions
    } else {
        Assertions { idle: true, ..o.assertions }
    };
    let t = if a.user_active && o.timeout_secs is None && o.utility.len() == 0 {
        Some(5u64)
    } else {
        o.timeout_secs
    };
    OptionsView { assertions: a, timeout_secs: t, ..o }
}

/// Applies the defaults that `spec_apply_defaults` describes.
pub fn apply_defaults(opts: Options) -> (r: Options)
    ensures
        r@ == spec_apply_defaults(opts@),
{
    let mut opts = opts;
    if !opts.assertions.any() {
        opts.assertions.idle = true;
    }
    if opts.assertions.user_active && opts.timeout_secs.is_none() && opts.utility.len() == 0 {
        opts.timeout_secs = Some(5);
    }
    opts
}

/// The options that take effect: with a utility to run, the timeout and the
/// process to wait for are ignored.
pub open spec fn spec_effective_options(o: OptionsView) -> OptionsView {
    if o.utility.len() > 0 {
        OptionsView { timeout_secs: None, wait_pid: None, ..o }
    } else {
        o
    }
}

/// Drops the timeout and the process to wait for when a utility is given.
pub fn effective_options(opts: Options) -> (r: Options)
    ensures
        r@ == spec_effective_options(opts@),
{
    let mut opts = opts;
    if !opts.utility.is_empty() {
        opts.timeout_secs = None;
        opts.wait_pid = None;
    }
    opts
}

/// Whether system sleep is prevented: only when it was requested, and not
/// while the machine is known to run on battery.
pub open spec fn spec_system_sleep(requested: bool, ac_power: Option<bool>) -> bool {
    requested && ac_power != Some(false)
}

/// Decides whether the system-sleep assertion holds, given what is known of
/// the power source (`None` when unknown).
pub fn resolve_system_sleep_assertion(requested: bool, ac_power: Option<bool>) -> (r: bool)
    ensures
        r == spec_system_sleep(requested, ac_power),
{
    if !requested {
        return false;
    }
    match ac_power {
        Some(false) => false,
        _ => true,
    }
}

/// What a run does once its command line is parsed.
#[derive(Debug)]
pub struct RunPlan {
    /// The options in effect.
    pub options: Options,
    /// What the platform is asked to inhibit.
    pub flags: InhibitFlags,
    /// Whether system sleep was requested but is not prevented because the
    /// machine runs on battery, which the user is warned of.
    pub system_sleep_ignored: bool,
}

/// The inhibition request for options that are in effect.
pub open spec fn spec_inhibit_flags(o: OptionsView, ac_power: Option<bool>) -> InhibitFlags {
    InhibitFlags {
        prevent_display_sleep: o.assertions.display,
        prevent_idle_sleep: o.assertions.idle || o.assertions.disk,
        prevent_system_sleep: spec_system_sleep(o.assertions.system, ac_power),
        user_active: o.assertions.user_active,
    }
}

/// Plans a run from the parsed options and what is known of the power source.
pub fn plan_run(opts: Options, ac_power: Option<bool>) -> (p: RunPlan)
    ensures
        p.options@ == spec_effective_options(spec_apply_defaults(opts@)),
        p.flags == spec_inhibit_flags(p.options@, ac_power),
        p.system_sleep_ignored == (p.options@.assertions.system
            && !p.flags.prevent_system_sleep),
{
    let opts = apply_defaults(opts);
    let effective = effective_options(opts);
    let a = effective.assertions;
    let prevent_system_sleep = resolve_system_sleep_assertion(a.system, ac_power);
    let flags = InhibitFlags {
        prevent_display_sleep: a.display,
        prevent_idle_sleep: a.idle || a.disk,
        prevent_system_sleep,
        user_active: a.user_active,
    };
    RunPlan { options: effective, flags, system_sleep_ignored: a.system && !prevent_system_sleep }
}

} // verus!

verus! {

/// The options that a run with parsed options `o` follows.
pub open spec fn spec_planned_options(o: OptionsView) -> OptionsView {
    spec_effective_options(spec_apply_defaults(o))
}

/// With no assertion asked for, a run prevents idle sleep, and only that.
pub proof fn lemma_default_is_idle(o: OptionsView, ac_power: Option<bool>)
    requires
        !o.assertions.holds_any(),
    ensures
        ({
            let f = spec_inhibit_flags(spec_planned_options(o), ac_power);
            &&& f.prevent_idle_sleep
            &&& !f.prevent_display_sleep
            &&& !f.prevent_system_sleep
            &&& !f.user_active
        }),
{
}

/// A run with a utility neither times out nor waits for a process, whatever
/// `-t` and `-w` said.
pub proof fn lemma_utility_ignores_timeout_and_wait(o: OptionsView)
    requires
        o.utility.len() > 0,
    ensures
        spec_planned_options(o).timeout_secs is None,
        spec_planned_options(o).wait_pid is None,
        spec_planned_options(o).utility == o.utility,
{
}

/// Declaring user activity without a timeout and without a utility holds for
/// five seconds; an explicit timeout is kept.
pub proof fn lemma_user_activity_timeout(o: OptionsView)
    requires
        o.assertions.user_active,
        o.utility.len() == 0,
    ensures
        spec_planned_options(o).timeout_secs == match o.timeout_secs {
            Some(t) => Some(t),
            None => Some(5u64),
        },
{
}

/// Without a utility, the timeout and the process to wait for are those asked
/// for, apart from the default timeout of user activity.
pub proof fn lemma_no_utility_keeps_wait(o: OptionsView)
    requires
        o.utility.len() == 0,
    ensures
        spec_planned_options(o).wait_pid == o.wait_pid,
        !o.assertions.user_active ==> spec_planned_options(o).timeout_secs == o.timeout_secs,
{
}

/// System sleep is prevented exactly when it was asked for and the machine is
/// not known to run on battery.
pub proof fn lemma_system_sleep_on_ac_only(o: OptionsView, ac_power: Option<bool>)
    ensures
        spec_inhibit_flags(spec_planned_options(o), ac_power).prevent_system_sleep == (
        o.assertions.system && ac_power != Some(false)),
{
}

} // verus!

verus! {

/// The disk assertion (`-m`) is held as an idle-sleep inhibition.
pub proof fn lemma_disk_is_idle_inhibition(o: OptionsView, ac_power: Option<bool>)
    requires
        o.assertions.disk,
    ensures
        spec_inhibit_flags(spec_planned_options(o), ac_power).prevent_idle_sleep,
{
}

} // verus!

verus! {

/// Applying the defaults keeps the assertions that were asked for; only a
/// command line with no assertion at all gets the idle assertion, and then
/// only that one. The process to wait for and the utility are never changed.
pub proof fn lemma_defaults_keep_given_assertions(o: OptionsView)
    ensures
        (o.assertions.display || o.assertions.idle || o.assertions.disk || o.assertions.system
            || o.assertions.user_active) ==> spec_apply_defaults(o).assertions == o.assertions,
        !(o.assertions.display || o.assertions.idle || o.assertions.disk || o.assertions.system
            || o.assertions.user_active) ==> spec_apply_defaults(o).assertions == (Assertions {
            display: false,
            idle: true,
            disk: false,
            system: false,
            user_active: false,
        }),
        spec_apply_defaults(o).wait_pid == o.wait_pid,
        spec_apply_defaults(o).utility == o.utility,
        o.timeout_secs is Some ==> spec_apply_defaults(o).timeout_secs == o.timeout_secs,
        !o.assertions.user_active ==> spec_apply_defaults(o).timeout_secs == o.timeout_secs,
{
}

/// What a run asks the platform to inhibit, in terms of the parsed options:
/// the display exactly for `-d`, user activity exactly for `-u`, idle sleep for
/// `-i`, `-m` or when nothing at all was asserted, and system sleep for `-s`
/// unless the machine is known to run on battery; a utility changes none of it.
pub proof fn lemma_plan_flags_follow_options(o: OptionsView, ac_power: Option<bool>)
    ensures
        ({
            let f = spec_inhibit_flags(spec_planned_options(o), ac_power);
            let a = o.assertions;
            let none = !(a.display || a.idle || a.disk || a.system || a.user_active);
            &&& f.prevent_display_sleep == a.display
            &&& f.user_active == a.user_active
            &&& f.prevent_idle_sleep == (a.idle || a.disk || none)
            &&& f.prevent_system_sleep == (a.system && ac_power != Some(false))
        }),
        spec_planned_options(o).assertions == spec_apply_defaults(o).assertions,
{
}

} // verus!
