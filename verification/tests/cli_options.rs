use caffeinate::options::{
    apply_defaults, effective_options, resolve_system_sleep_assertion, Error, Options,
};
use caffeinate::parse::parse_options;

fn normalize(opts: Options, ac_power: Option<bool>) -> Options {
    let opts = apply_defaults(opts);
    let mut effective = effective_options(opts);
    effective.assertions.system =
        resolve_system_sleep_assertion(effective.assertions.system, ac_power);
    effective
}

fn parse(args: &[&str]) -> Options {
    let argv = args.iter().map(|s| s.to_string()).collect::<Vec<_>>();
    parse_options(&argv).expect("parse should succeed")
}

#[test]
fn defaults_to_idle_when_no_assertions() {
    let opts = normalize(parse(&[]), None);
    assert!(opts.assertions.idle);
}

#[test]
fn parses_combined_flags_and_values() {
    let opts = parse(&["-dismu", "-t", "15", "-w123"]);
    assert!(opts.assertions.display);
    assert!(opts.assertions.idle);
    assert!(opts.assertions.disk);
    assert!(opts.assertions.system);
    assert!(opts.assertions.user_active);
    assert_eq!(opts.timeout_secs, Some(15));
    assert_eq!(opts.wait_pid, Some(123));
}

#[test]
fn parses_attached_numeric_values() {
    let opts = parse(&["-t10", "-w42"]);
    assert_eq!(opts.timeout_secs, Some(10));
    assert_eq!(opts.wait_pid, Some(42));
}

#[test]
fn parses_split_numeric_values() {
    let opts = parse(&["-t", "10", "-w", "42"]);
    assert_eq!(opts.timeout_secs, Some(10));
    assert_eq!(opts.wait_pid, Some(42));
}

#[test]
fn parses_option_with_tail_after_t() {
    let opts = parse(&["-dt10"]);
    assert!(opts.assertions.display);
    assert_eq!(opts.timeout_secs, Some(10));
}

#[test]
fn parses_option_with_tail_after_w() {
    let opts = parse(&["-iw777"]);
    assert!(opts.assertions.idle);
    assert_eq!(opts.wait_pid, Some(777));
}

#[test]
fn utility_consumes_remaining_args() {
    let opts = parse(&["-d", "sleep", "5", "-t", "100"]);
    assert!(opts.assertions.display);
    assert_eq!(opts.utility, vec!["sleep", "5", "-t", "100"]);
}

#[test]
fn dash_dash_stops_option_parsing() {
    let opts = parse(&["-d", "--", "-t", "100"]);
    assert!(opts.assertions.display);
    assert_eq!(opts.utility, vec!["-t", "100"]);
}

#[test]
fn single_dash_is_utility_name() {
    let opts = parse(&["-"]);
    assert_eq!(opts.utility, vec!["-"]);
}

#[test]
fn utility_ignores_timeout_and_wait() {
    let opts = parse(&["-t", "10", "-w", "22", "echo", "hi"]);
    let effective = effective_options(opts);
    assert!(effective.timeout_secs.is_none());
    assert!(effective.wait_pid.is_none());
}

#[test]
fn user_activity_defaults_to_five_seconds() {
    let opts = normalize(parse(&["-u"]), None);
    assert_eq!(opts.timeout_secs, Some(5));
}

#[test]
fn user_activity_does_not_override_explicit_timeout() {
    let opts = normalize(parse(&["-u", "-t", "9"]), None);
    assert_eq!(opts.timeout_secs, Some(9));
}

#[test]
fn system_sleep_requires_ac_power_only() {
    let on_ac = normalize(parse(&["-s"]), Some(true));
    let on_battery = normalize(parse(&["-s"]), Some(false));
    let unknown = normalize(parse(&["-s"]), None);
    assert!(on_ac.assertions.system);
    assert!(!on_battery.assertions.system);
    assert!(unknown.assertions.system);
}

#[test]
fn resolve_system_sleep_assertion_helper() {
    assert!(!resolve_system_sleep_assertion(false, Some(true)));
    assert!(resolve_system_sleep_assertion(true, Some(true)));
    assert!(!resolve_system_sleep_assertion(true, Some(false)));
    assert!(resolve_system_sleep_assertion(true, None));
}

#[test]
fn invalid_short_option_is_error() {
    let argv = vec!["-x".to_string()];
    let err = parse_options(&argv).expect_err("should fail");
    assert!(matches!(err, Error::Usage(_)));
}

#[test]
fn missing_timeout_value_is_error() {
    let argv = vec!["-t".to_string()];
    let err = parse_options(&argv).expect_err("should fail");
    match err {
        Error::Usage(msg) => assert!(msg.contains("-t requires a timeout value")),
        _ => panic!("unexpected error type"),
    }
}

#[test]
fn missing_wait_pid_value_is_error() {
    let argv = vec!["-w".to_string()];
    let err = parse_options(&argv).expect_err("should fail");
    match err {
        Error::Usage(msg) => assert!(msg.contains("-w requires a pid value")),
        _ => panic!("unexpected error type"),
    }
}

#[test]
fn invalid_timeout_value_is_error() {
    let argv = vec!["-t".to_string(), "abc".to_string()];
    let err = parse_options(&argv).expect_err("should fail");
    match err {
        Error::Usage(msg) => assert!(msg.contains("invalid timeout")),
        _ => panic!("unexpected error type"),
    }
}

#[test]
fn invalid_pid_value_is_error() {
    let argv = vec!["-w".to_string(), "abc".to_string()];
    let err = parse_options(&argv).expect_err("should fail");
    match err {
        Error::Usage(msg) => assert!(msg.contains("invalid pid")),
        _ => panic!("unexpected error type"),
    }
}
