use caffeinate::hold::{exit_code, hold_ends, HOLD_EXIT_CODE, HOLD_POLL_MILLIS};
use caffeinate::options::{apply_defaults, plan_run, Assertions, Error, Options};
use caffeinate::parse::{parse_options, parse_u32, parse_u64};
use caffeinate::pid::{parse_pid_stat, LinuxPidSnapshot, PidWatch};
use caffeinate::platform::linux::{
    ac_power_from_supplies, join_strings, linux_activation_outcome, linux_inhibit_plan,
    PowerSupply,
};
use caffeinate::platform::windows::{
    ac_power_from_status, execution_state_request, process_still_active,
};
use caffeinate::platform::{noop, InhibitFlags};
use caffeinate::text::{parse_unsigned_str, split_whitespace, str_eq, trim_str};

fn words(args: &[&str]) -> Vec<String> {
    args.iter().map(|s| s.to_string()).collect()
}

fn parse_ok(args: &[&str]) -> Options {
    parse_options(&words(args)).expect("parse should succeed")
}

fn usage_message(args: &[&str]) -> String {
    match parse_options(&words(args)) {
        Err(Error::Usage(m)) => m,
        other => panic!("expected a usage error, got {:?}", other),
    }
}

fn same_options(a: &Options, b: &Options) -> bool {
    a.assertions.display == b.assertions.display
        && a.assertions.idle == b.assertions.idle
        && a.assertions.disk == b.assertions.disk
        && a.assertions.system == b.assertions.system
        && a.assertions.user_active == b.assertions.user_active
        && a.timeout_secs == b.timeout_secs
        && a.wait_pid == b.wait_pid
        && a.utility == b.utility
}

#[test]
fn attached_value_reads_as_next_word() {
    let a = parse_ok(&["-dt10", "make"]);
    let b = parse_ok(&["-dt", "10", "make"]);
    assert!(same_options(&a, &b));
    let c = parse_ok(&["-smw77", "-u"]);
    let d = parse_ok(&["-smw", "77", "-u"]);
    assert!(same_options(&c, &d));
    assert_eq!(c.wait_pid, Some(77));
}

#[test]
fn combined_flags_read_as_separate_words() {
    let a = parse_ok(&["-dism", "-t", "3"]);
    let b = parse_ok(&["-d", "-i", "-s", "-m", "-t", "3"]);
    assert!(same_options(&a, &b));
    assert!(a.assertions.disk && !a.assertions.user_active);
}

#[test]
fn later_timeout_replaces_earlier() {
    let opts = parse_ok(&["-t", "1", "-t2"]);
    assert_eq!(opts.timeout_secs, Some(2));
}

#[test]
fn no_words_gives_no_options() {
    let opts = parse_ok(&[]);
    assert!(!opts.assertions.display && !opts.assertions.idle && !opts.assertions.disk);
    assert!(!opts.assertions.system && !opts.assertions.user_active);
    assert_eq!(opts.timeout_secs, None);
    assert_eq!(opts.wait_pid, None);
    assert!(opts.utility.is_empty());
}

#[test]
fn dash_dash_alone_gives_empty_utility() {
    let opts = parse_ok(&["-u", "--"]);
    assert!(opts.assertions.user_active);
    assert!(opts.utility.is_empty());
    let opts = parse_ok(&["--", "--", "-d"]);
    assert_eq!(opts.utility, vec!["--", "-d"]);
    assert!(!opts.assertions.display);
}

#[test]
fn empty_word_starts_the_utility() {
    let opts = parse_ok(&["-d", "", "-i"]);
    assert_eq!(opts.utility, vec!["", "-i"]);
    assert!(!opts.assertions.idle);
}

#[test]
fn usage_error_texts() {
    assert_eq!(usage_message(&["-x"]), "invalid option: -x");
    assert_eq!(usage_message(&["-dé"]), "invalid option: -é");
    assert_eq!(usage_message(&["-t"]), "-t requires a timeout value");
    assert_eq!(usage_message(&["-iw"]), "-w requires a pid value");
    assert_eq!(usage_message(&["-t", "abc"]), "invalid timeout: abc");
    assert_eq!(usage_message(&["-wabc"]), "invalid pid: abc");
    assert_eq!(usage_message(&["-t", "-5"]), "invalid timeout: -5");
    assert_eq!(usage_message(&["-t", ""]), "invalid timeout: ");
}

#[test]
fn error_stops_at_first_problem() {
    assert_eq!(usage_message(&["-q", "-t"]), "invalid option: -q");
    assert_eq!(usage_message(&["-t", "x", "-q"]), "invalid timeout: x");
}

#[test]
fn number_limits() {
    assert_eq!(parse_u64("timeout", "18446744073709551615").ok(), Some(u64::MAX));
    assert!(parse_u64("timeout", "18446744073709551616").is_err());
    assert_eq!(parse_u32("pid", "4294967295").ok(), Some(u32::MAX));
    assert!(parse_u32("pid", "4294967296").is_err());
    assert_eq!(parse_u64("timeout", "+7").ok(), Some(7));
    assert_eq!(parse_u64("timeout", "007").ok(), Some(7));
    assert!(parse_u64("timeout", "+").is_err());
    assert!(parse_u64("timeout", "").is_err());
    assert!(parse_u64("timeout", " 7").is_err());
    assert!(parse_u64("timeout", "1_0").is_err());
    match parse_u32("pid", "9x") {
        Err(Error::Usage(m)) => assert_eq!(m, "invalid pid: 9x"),
        _ => panic!("expected a usage error"),
    }
}

#[test]
fn unsigned_parsing_matches_std() {
    for s in ["0", "42", "+42", "+", "", "-1", "99999999999", "4294967296", "१"] {
        let mine = parse_unsigned_str(s, u32::MAX as u64);
        let expected = s.parse::<u32>().ok().map(|v| v as u64);
        assert_eq!(mine, expected, "on {:?}", s);
        assert_eq!(parse_unsigned_str(s, u64::MAX), s.parse::<u64>().ok(), "on {:?}", s);
    }
}

#[test]
fn error_message_is_its_text() {
    assert_eq!(Error::Usage("bad".to_string()).message(), "bad");
    assert_eq!(Error::Runtime("worse".to_string()).message(), "worse");
}

#[test]
fn defaults_are_applied() {
    let opts = apply_defaults(parse_ok(&[]));
    assert!(opts.assertions.idle);
    let opts = apply_defaults(parse_ok(&["-d"]));
    assert!(!opts.assertions.idle);
    let opts = apply_defaults(parse_ok(&["-u", "true"]));
    assert_eq!(opts.timeout_secs, None);
}

#[test]
fn plan_default_run() {
    let plan = plan_run(parse_ok(&[]), None);
    assert!(plan.flags.prevent_idle_sleep);
    assert!(!plan.flags.prevent_display_sleep);
    assert!(!plan.flags.prevent_system_sleep);
    assert!(!plan.flags.user_active);
    assert!(!plan.system_sleep_ignored);
}

#[test]
fn plan_disk_maps_to_idle() {
    let plan = plan_run(parse_ok(&["-m"]), Some(true));
    assert!(plan.flags.prevent_idle_sleep);
    assert!(!plan.options.assertions.idle);
}

#[test]
fn plan_system_on_battery_is_ignored() {
    let plan = plan_run(parse_ok(&["-s"]), Some(false));
    assert!(!plan.flags.prevent_system_sleep);
    assert!(plan.system_sleep_ignored);
    let plan = plan_run(parse_ok(&["-s"]), Some(true));
    assert!(plan.flags.prevent_system_sleep);
    assert!(!plan.system_sleep_ignored);
}

#[test]
fn plan_user_activity() {
    let plan = plan_run(parse_ok(&["-u"]), None);
    assert_eq!(plan.options.timeout_secs, Some(5));
    assert!(plan.flags.user_active);
    let plan = plan_run(parse_ok(&["-u", "-t", "9", "-w", "3", "sleep", "1"]), None);
    assert_eq!(plan.options.timeout_secs, None);
    assert_eq!(plan.options.wait_pid, None);
    assert_eq!(plan.options.utility, vec!["sleep", "1"]);
}

#[test]
fn plan_keeps_wait_without_utility() {
    let plan = plan_run(parse_ok(&["-w", "12"]), None);
    assert_eq!(plan.options.wait_pid, Some(12));
    assert_eq!(plan.options.timeout_secs, None);
}

const STAT: &str = "4242 (my (odd) cmd) S 1 4242 4242 0 -1 4194560 120 0 0 0 3 1 0 0 20 0 1 0 987654 1000 2 18446744073709551615";

#[test]
fn pid_stat_is_read() {
    let snap = parse_pid_stat(STAT).expect("stat should parse");
    assert_eq!(snap.state, 'S');
    assert_eq!(snap.start_time_ticks, 987654);
}

#[test]
fn pid_stat_rejects_malformed_text() {
    assert_eq!(parse_pid_stat("4242 cmd S 1"), None);
    assert_eq!(parse_pid_stat("4242 (cmd)"), None);
    assert_eq!(parse_pid_stat("4242 (cmd)é S 1 2 3 4 5 6 7 8 9 10 11 12 13 14 15 16 17 18 19 20"), None);
    assert_eq!(parse_pid_stat("4242 (cmd) S 1 2 3"), None);
    assert_eq!(parse_pid_stat("4242 (cmd) S 1 2 3 4 5 6 7 8 9 10 11 12 13 14 15 16 17 18 x"), None);
    let snap = parse_pid_stat("1 (a) Z\t1 2 3 4 5 6 7 8 9 10 11 12 13 14 15 16 17 18 +19");
    assert_eq!(snap, Some(LinuxPidSnapshot { state: 'Z', start_time_ticks: 19 }));
}

#[test]
fn pid_watch_follows_the_same_process() {
    let first = LinuxPidSnapshot { state: 'S', start_time_ticks: 100 };
    let watch = PidWatch::new(7, Some(first));
    assert_eq!(watch.pid, 7);
    assert_eq!(watch.start_time_ticks, Some(100));
    assert!(watch.is_alive(Some(LinuxPidSnapshot { state: 'R', start_time_ticks: 100 })));
    assert!(!watch.is_alive(Some(LinuxPidSnapshot { state: 'Z', start_time_ticks: 100 })));
    assert!(!watch.is_alive(Some(LinuxPidSnapshot { state: 'X', start_time_ticks: 100 })));
    assert!(!watch.is_alive(Some(LinuxPidSnapshot { state: 'S', start_time_ticks: 101 })));
    assert!(!watch.is_alive(None));
}

#[test]
fn pid_watch_of_absent_process_is_never_alive() {
    let watch = PidWatch::new(999_999, None);
    assert_eq!(watch.start_time_ticks, None);
    assert!(!watch.is_alive(None));
    assert!(!watch.is_alive(Some(LinuxPidSnapshot { state: 'S', start_time_ticks: 5 })));
}

#[test]
fn hold_ends_on_first_condition() {
    assert!(!hold_ends(false, None, None));
    assert!(hold_ends(true, None, None));
    assert!(hold_ends(false, Some(false), None));
    assert!(!hold_ends(false, Some(true), Some(false)));
    assert!(hold_ends(false, Some(true), Some(true)));
    assert!(hold_ends(false, None, Some(true)));
    assert_eq!(HOLD_POLL_MILLIS, 100);
    assert_eq!(HOLD_EXIT_CODE, 0);
}

#[test]
fn exit_codes() {
    assert_eq!(exit_code(Some(7), None), 7);
    assert_eq!(exit_code(Some(0), Some(9)), 0);
    assert_eq!(exit_code(None, Some(9)), 137);
    assert_eq!(exit_code(None, None), 1);
}

#[test]
fn linux_plan_for_flags() {
    let p = linux_inhibit_plan(InhibitFlags::default());
    assert!(!p.login1_idle && !p.login1_sleep && !p.screensaver);
    let p = linux_inhibit_plan(InhibitFlags { prevent_display_sleep: true, ..InhibitFlags::default() });
    assert!(p.login1_idle && !p.login1_sleep && p.screensaver);
    let p = linux_inhibit_plan(InhibitFlags { prevent_system_sleep: true, ..InhibitFlags::default() });
    assert!(!p.login1_idle && p.login1_sleep && !p.screensaver);
    let p = linux_inhibit_plan(InhibitFlags { user_active: true, ..InhibitFlags::default() });
    assert!(p.login1_idle && !p.login1_sleep && p.screensaver);
}

#[test]
fn linux_outcome() {
    let idle = linux_inhibit_plan(InhibitFlags { prevent_idle_sleep: true, ..InhibitFlags::default() });
    let none = linux_inhibit_plan(InhibitFlags::default());
    let errors = vec!["no bus".to_string(), "denied".to_string()];
    assert_eq!(linux_activation_outcome(none, 0, 0, &errors), Ok(()));
    assert_eq!(linux_activation_outcome(idle, 1, 0, &errors), Ok(()));
    assert_eq!(linux_activation_outcome(idle, 0, 1, &errors), Ok(()));
    assert_eq!(
        linux_activation_outcome(idle, 0, 0, &errors),
        Err("failed to acquire any sleep inhibitor on Linux: no bus; denied".to_string())
    );
    assert_eq!(
        linux_activation_outcome(idle, 0, 0, &vec![]),
        Err("failed to acquire any sleep inhibitor on Linux: ".to_string())
    );
}

#[test]
fn joining() {
    assert_eq!(join_strings(&vec![], ", "), "");
    assert_eq!(join_strings(&vec!["a".to_string()], ", "), "a");
    assert_eq!(join_strings(&vec!["a".to_string(), "b".to_string(), "c".to_string()], ", "), "a, b, c");
}

fn supply(kind: Option<&str>, online: Option<&str>) -> PowerSupply {
    PowerSupply { kind: kind.map(|s| s.to_string()), online: online.map(|s| s.to_string()) }
}

#[test]
fn ac_power_from_listed_supplies() {
    assert_eq!(ac_power_from_supplies(&[]), None);
    assert_eq!(ac_power_from_supplies(&[supply(Some("Battery\n"), Some("1\n"))]), None);
    assert_eq!(ac_power_from_supplies(&[supply(None, Some("1"))]), None);
    assert_eq!(
        ac_power_from_supplies(&[supply(Some("Mains\n"), Some("0\n")), supply(Some("Battery\n"), None)]),
        Some(false)
    );
    assert_eq!(ac_power_from_supplies(&[supply(Some("AC"), None)]), Some(false));
    assert_eq!(
        ac_power_from_supplies(&[supply(Some("Mains\n"), Some("0\n")), supply(Some(" AC "), Some("1\n"))]),
        Some(true)
    );
    assert_eq!(ac_power_from_supplies(&[supply(Some("mains"), Some("1"))]), None);
}

#[test]
fn windows_answers() {
    assert_eq!(execution_state_request(InhibitFlags::default()), None);
    assert_eq!(
        execution_state_request(InhibitFlags { prevent_idle_sleep: true, ..InhibitFlags::default() }),
        Some(0x8000_0001)
    );
    assert!(process_still_active(1, 259));
    assert!(!process_still_active(0, 259));
    assert!(!process_still_active(1, 0));
    assert_eq!(ac_power_from_status(0, 1), None);
    assert_eq!(ac_power_from_status(1, 0), Some(false));
    assert_eq!(ac_power_from_status(1, 1), Some(true));
    assert_eq!(ac_power_from_status(1, 255), None);
}

#[test]
fn noop_platform_refuses() {
    assert_eq!(noop::on_ac_power(), None);
    match noop::activate(InhibitFlags::default(), true) {
        Err(m) => assert!(m.contains("/usr/bin/caffeinate")),
        Ok(_) => panic!("noop activation must fail"),
    }
    match noop::activate(InhibitFlags::default(), false) {
        Err(m) => assert_eq!(m, "sleep inhibition is not supported on this platform"),
        Ok(_) => panic!("noop activation must fail"),
    }
}

#[test]
fn text_helpers() {
    assert_eq!(trim_str("\u{3000} Mains\n\u{a0}"), "Mains");
    assert_eq!(trim_str("   "), "");
    assert_eq!(trim_str("a b"), "a b");
    let fields = split_whitespace("  a\u{2003}bc\td  ");
    assert_eq!(fields, vec!["a", "bc", "d"]);
    assert!(split_whitespace(" \n ").is_empty());
    assert!(str_eq("héllo", "héllo"));
    assert!(!str_eq("héllo", "hello"));
    assert!(!str_eq("ab", "abc"));
    let sample = " x\u{85}y \u{1680}z ";
    let std_fields: Vec<String> = sample.split_whitespace().map(|s| s.to_string()).collect();
    assert_eq!(split_whitespace(sample), std_fields);
    assert_eq!(trim_str(sample), sample.trim());
}

#[test]
fn default_assertions_are_clear() {
    let a = Assertions::default();
    assert!(!a.any());
    let b = Assertions { user_active: true, ..Assertions::default() };
    assert!(b.any());
}
