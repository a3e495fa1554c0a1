//! The command line: `[-disum] [-t timeout] [-w pid] [utility [argument ...]]`.
//!
//! Options come first; letters may be combined in one word (`-dism`), and the
//! value of `-t` or `-w` is either the rest of its word (`-t10`, `-dt10`) or
//! the next word (`-t 10`). The word `--` ends the options, and so does the
//! first word that does not start with `-` or is `-` alone; that word and all
//! after it are the utility to run and its arguments.

use vstd::prelude::*;

use crate::options::{Assertions, Error, ErrorView, Options, OptionsView};
use crate::text::{parse_unsigned, parse_unsigned_str, str_eq};

verus! {

/// What the options before the utility set.
#[derive(Debug, Clone, Copy)]
pub struct Settings {
    pub assertions: Assertions,
    pub timeout_secs: Option<u64>,
    pub wait_pid: Option<u32>,
}

/// The settings before any option is read.
pub open spec fn initial_settings() -> Settings {
    Settings {
        assertions: Assertions {
            display: false,
            idle: false,
            disk: false,
            system: false,
            user_active: false,
        },
        timeout_secs: None,
        wait_pid: None,
    }
}

/// The options made of `s` and the utility `u`.
pub open spec fn with_utility(s: Settings, u: Seq<Seq<char>>) -> OptionsView {
    OptionsView {
        assertions: s.assertions,
        timeout_secs: s.timeout_secs,
        wait_pid: s.wait_pid,
        utility: u,
    }
}

/// The letters that set an assertion: `d`isplay, `i`dle, `m` (disk),
/// `s`ystem and `u`ser activity.
pub open spec fn is_flag_letter(c: char) -> bool {
    c == 'd' || c == 'i' || c == 'm' || c == 's' || c == 'u'
}

/// The letters that take a value: `t`imeout and `w`ait for a process.
pub open spec fn is_value_letter(c: char) -> bool {
    c == 't' || c == 'w'
}

/// `s` with the assertion of the flag letter `c` set.
pub open spec fn set_flag(s: Settings, c: char) -> Settings {
    let a = s.assertions;
    let a2 = if c == 'd' {
        Assertions { display: true, ..a }
    } else if c == 'i' {
        Assertions { idle: true, ..a }
    } else if c == 'm' {
        Assertions { disk: true, ..a }
    } else if c == 's' {
        Assertions { system: true, ..a }
    } else if c == 'u' {
        Assertions { user_active: true, ..a }
    } else {
        a
    };
    Settings { assertions: a2, ..s }
}

/// The error for `-t` or `-w` at the end of the command line.
pub open spec fn missing_value_message(letter: char) -> Seq<char> {
    if letter == 't' {
        "-t requires a timeout value"@
    } else {
        "-w requires a pid value"@
    }
}

/// The error for a value that is not a number of the right size.
pub open spec fn invalid_value_message(name: Seq<char>, value: Seq<char>) -> Seq<char> {
    "invalid "@ + name + ": "@ + value
}

/// The error for a letter that is no option.
pub open spec fn invalid_option_message(c: char) -> Seq<char> {
    "invalid option: -"@ + seq![c]
}

/// `s` with the value of `-t` (seconds, a `u64`) or `-w` (a process id, a
/// `u32`) set to `value`, or the error for a value that is not such a number.
pub open spec fn spec_apply_value(letter: char, value: Seq<char>, s: Settings) -> Result<
    Settings,
    Seq<char>,
> {
    if letter == 't' {
        match parse_unsigned(value, u64::MAX as nat) {
            Some(n) => Ok(Settings { timeout_secs: Some(n as u64), ..s }),
            None => Err(invalid_value_message("timeout"@, value)),
        }
    } else {
        match parse_unsigned(value, u32::MAX as nat) {
            Some(n) => Ok(Settings { wait_pid: Some(n as u32), ..s }),
            None => Err(invalid_value_message("pid"@, value)),
        }
    }
}

/// How the letters of an option word end.
pub enum ClusterEnd {
    /// All letters were read, with these settings.
    Done(Settings),
    /// The last letter, `-t` or `-w`, takes its value from the next word.
    NeedsValue(Settings, char),
    /// A letter or a value is invalid; the text says which.
    Fail(Seq<char>),
}

/// Reads the letters of the option word `arg` from position `j` on.
pub open spec fn spec_cluster(arg: Seq<char>, j: int, s: Settings) -> ClusterEnd
    decreases arg.len() - j,
{
    if j < 0 || j >= arg.len() {
        ClusterEnd::Done(s)
    } else {
        let c = arg[j];
        if is_flag_letter(c) {
            spec_cluster(arg, j + 1, set_flag(s, c))
        } else if is_value_letter(c) {
            if j + 1 < arg.len() {
                match spec_apply_value(c, arg.skip(j + 1), s) {
                    Ok(s2) => ClusterEnd::Done(s2),
                    Err(m) => ClusterEnd::Fail(m),
                }
            } else {
                ClusterEnd::NeedsValue(s, c)
            }
        } else {
            ClusterEnd::Fail(invalid_option_message(c))
        }
    }
}

/// A word that holds options: it starts with `-` and is not `-` alone.
pub open spec fn is_option_word(a: Seq<char>) -> bool {
    a.len() >= 2 && a[0] == '-'
}

/// Reads the words `args` with the settings `s` made so far.
pub open spec fn spec_parse_args(args: Seq<Seq<char>>, s: Settings) -> Result<
    OptionsView,
    Seq<char>,
>
    decreases args.len(),
{
    if args.len() == 0 {
        Ok(with_utility(s, seq![]))
    } else if args[0] == "--"@ {
        Ok(with_utility(s, args.drop_first()))
    } else if !is_option_word(args[0]) {
        Ok(with_utility(s, args))
    } else {
        match spec_cluster(args[0], 1, s) {
            ClusterEnd::Done(s2) => spec_parse_args(args.drop_first(), s2),
            ClusterEnd::NeedsValue(s2, c) => if args.len() < 2 {
                Err(missing_value_message(c))
            } else {
                match spec_apply_value(c, args[1], s2) {
                    Ok(s3) => spec_parse_args(args.skip(2), s3),
                    Err(m) => Err(m),
                }
            },
            ClusterEnd::Fail(m) => Err(m),
        }
    }
}

/// The options that the command-line words `args` give, or the text of the
/// usage error that they cause.
pub open spec fn spec_parse_options(args: Seq<Seq<char>>) -> Result<OptionsView, Seq<char>> {
    spec_parse_args(args, initial_settings())
}

/// Parses a timeout in seconds; `name` names the value in the error.
pub fn parse_u64(name: &str, value: &str) -> (r: Result<u64, Error>)
    ensures
        match r {
            Ok(n) => parse_unsigned(value@, u64::MAX as nat) == Some(n as nat),
            Err(e) => parse_unsigned(value@, u64::MAX as nat) is None && e@ == ErrorView::Usage(
                invalid_value_message(name@, value@),
            ),
        },
{
    match parse_unsigned_str(value, u64::MAX) {
        Some(n) => Ok(n),
        None => Err(Error::Usage(invalid_value(name, value))),
    }
}

/// Parses a process id; `name` names the value in the error.
pub fn parse_u32(name: &str, value: &str) -> (r: Result<u32, Error>)
    ensures
        match r {
            Ok(n) => parse_unsigned(value@, u32::MAX as nat) == Some(n as nat),
            Err(e) => parse_unsigned(value@, u32::MAX as nat) is None && e@ == ErrorView::Usage(
                invalid_value_message(name@, value@),
            ),
        },
{
    match parse_unsigned_str(value, u32::MAX as u64) {
        Some(n) => Ok(n as u32),
        None => Err(Error::Usage(invalid_value(name, value))),
    }
}

fn invalid_value(name: &str, value: &str) -> (m: String)
    ensures
        m@ == invalid_value_message(name@, value@),
{
    let mut m = String::from_str("invalid ");
    m.append(name);
    m.append(": ");
    m.append(value);
    m
}

/// Sets the value of `-t` or `-w`.
fn apply_value(letter: char, value: &str, s: Settings) -> (r: Result<Settings, Error>)
    requires
        is_value_letter(letter),
    ensures
        match (r, spec_apply_value(letter, value@, s)) {
            (Ok(a), Ok(b)) => a == b,
            (Err(e), Err(m)) => e@ == ErrorView::Usage(m),
            _ => false,
        },
{
    if letter == 't' {
        let n = parse_u64("timeout", value)?;
        Ok(Settings { timeout_secs: Some(n), ..s })
    } else {
        let n = parse_u32("pid", value)?;
        Ok(Settings { wait_pid: Some(n), ..s })
    }
}

/// Reads the letters of an option word after its `-`: the settings with the
/// letter that still needs the next word, if any, or the usage error.
fn parse_cluster(arg: &str, s: Settings) -> (r: Result<(Settings, Option<char>), Error>)
    ensures
        match (r, spec_cluster(arg@, 1, s)) {
            (Ok((a, None)), ClusterEnd::Done(b)) => a == b,
            (Ok((a, Some(c))), ClusterEnd::NeedsValue(b, d)) => a == b && c == d,
            (Err(e), ClusterEnd::Fail(m)) => e@ == ErrorView::Usage(m),
            _ => false,
        },
        r matches Ok((_, Some(c))) ==> is_value_letter(c),
{
    let n = arg.unicode_len();
    let mut st = s;
    let mut j: usize = 1;
    while j < n
        invariant
            n == arg@.len(),
            1 <= j,
            spec_cluster(arg@, 1, s) == spec_cluster(arg@, j as int, st),
        decreases n - j,
    {
        let c = arg.get_char(j);
        if c == 'd' {
            st.assertions.display = true;
        } else if c == 'i' {
            st.assertions.idle = true;
        } else if c == 'm' {
            st.assertions.disk = true;
        } else if c == 's' {
            st.assertions.system = true;
        } else if c == 'u' {
            st.assertions.user_active = true;
        } else if c == 't' || c == 'w' {
            if j + 1 < n {
                let value = arg.substring_char(j + 1, n);
                assert(value@ =~= arg@.skip(j + 1));
                let s2 = apply_value(c, value, st)?;
                return Ok((s2, None));
            } else {
                return Ok((st, Some(c)));
            }
        } else {
            let mut m = String::from_str("invalid option: -");
            let letter = arg.substring_char(j, j + 1);
            assert(letter@ =~= seq![c]);
            m.append(letter);
            return Err(Error::Usage(m));
        }
        j = j + 1;
    }
    Ok((st, None))
}

/// The words `args[from..]` as owned strings.
fn clone_tail(args: &[String], from: usize) -> (v: Vec<String>)
    requires
        from <= args@.len(),
    ensures
        v.deep_view() == args.deep_view().skip(from as int),
{
    let mut v: Vec<String> = Vec::new();
    let mut k: usize = from;
    while k < args.len()
        invariant
            from <= k <= args@.len(),
            v.deep_view() =~= args.deep_view().subrange(from as int, k as int),
        decreases args@.len() - k,
    {
        let w = args[k].clone();
        assert(w@ == args.deep_view()[k as int]);
        let ghost before = v.deep_view();
        v.push(w);
        assert(v.deep_view() =~= before.push(w@));
        assert(v.deep_view() =~= args.deep_view().subrange(from as int, k + 1));
        k = k + 1;
    }
    v
}

/// Parses the command-line words after the program name.
pub fn parse_options(args: &[String]) -> (r: Result<Options, Error>)
    ensures
        match (r, spec_parse_options(args.deep_view())) {
            (Ok(o), Ok(v)) => o@ == v,
            (Err(e), Err(m)) => e@ == ErrorView::Usage(m),
            _ => false,
        },
{
    let ghost words = args.deep_view();
    let mut st = Settings {
        assertions: Assertions {
            display: false,
            idle: false,
            disk: false,
            system: false,
            user_active: false,
        },
        timeout_secs: None,
        wait_pid: None,
    };
    let mut i: usize = 0;
    assert(words.skip(0) =~= words);
    while i < args.len()
        invariant
            words == args.deep_view(),
            i <= args@.len(),
            spec_parse_options(words) == spec_parse_args(words.skip(i as int), st),
        decreases args@.len() - i,
    {
        let ghost rest = words.skip(i as int);
        assert(rest[0] == args@[i as int]@);
        let arg = args[i].as_str();
        if str_eq(arg, "--") {
            let utility = clone_tail(args, i + 1);
            assert(rest.drop_first() =~= words.skip(i + 1));
            return Ok(
                Options {
                    assertions: st.assertions,
                    timeout_secs: st.timeout_secs,
                    wait_pid: st.wait_pid,
                    utility,
                },
            );
        }
        let n = arg.unicode_len();
        if n < 2 || arg.get_char(0) != '-' {
            let utility = clone_tail(args, i);
            return Ok(
                Options {
                    assertions: st.assertions,
                    timeout_secs: st.timeout_secs,
                    wait_pid: st.wait_pid,
                    utility,
                },
            );
        }
        let (st2, pending) = parse_cluster(arg, st)?;
        match pending {
            None => {
                assert(rest.drop_first() =~= words.skip(i + 1));
                st = st2;
                i = i + 1;
            },
            Some(letter) => {
                if i + 1 >= args.len() {
                    let m = if letter == 't' {
                        String::from_str("-t requires a timeout value")
                    } else {
                        String::from_str("-w requires a pid value")
                    };
                    return Err(Error::Usage(m));
                }
                assert(rest[1] == args@[i + 1]@);
                assert(rest.skip(2) =~= words.skip(i + 2));
                let value = args[i + 1].as_str();
                st = apply_value(letter, value, st2)?;
                i = i + 2;
            },
        }
    }
    assert(words.skip(i as int) =~= Seq::<Seq<char>>::empty());
    let o = Options {
        assertions: st.assertions,
        timeout_secs: st.timeout_secs,
        wait_pid: st.wait_pid,
        utility: Vec::new(),
    };
    assert(o@.utility =~= Seq::<Seq<char>>::empty());
    Ok(o)
}

} // verus!

verus! {

/// `s` with the assertions of the flag letters `fl` set, in order.
pub open spec fn apply_flags(s: Settings, fl: Seq<char>) -> Settings
    decreases fl.len(),
{
    if fl.len() == 0 {
        s
    } else {
        apply_flags(set_flag(s, fl[0]), fl.drop_first())
    }
}

/// Reading flag letters only sets their assertions.
proof fn lemma_cluster_of_flags(arg: Seq<char>, j: int, s: Settings)
    requires
        1 <= j <= arg.len(),
        forall|k: int| j <= k < arg.len() ==> is_flag_letter(#[trigger] arg[k]),
    ensures
        spec_cluster(arg, j, s) == ClusterEnd::Done(apply_flags(s, arg.skip(j))),
    decreases arg.len() - j,
{
    if j < arg.len() {
        lemma_cluster_of_flags(arg, j + 1, set_flag(s, arg[j]));
        assert(arg.skip(j).drop_first() =~= arg.skip(j + 1));
    } else {
        assert(arg.skip(j).len() == 0);
    }
}

/// Up to the letter that takes a value, an option word with its value attached
/// and the same word without it are read alike: the first applies the value,
/// the second asks for the next word.
proof fn lemma_cluster_attached(
    flags: Seq<char>,
    letter: char,
    value: Seq<char>,
    j: int,
    s: Settings,
)
    requires
        forall|k: int| 0 <= k < flags.len() ==> is_flag_letter(#[trigger] flags[k]),
        is_value_letter(letter),
        value.len() > 0,
        1 <= j <= flags.len() + 1,
    ensures
        ({
            let b = seq!['-'] + flags + seq![letter];
            let a = b + value;
            let st = apply_flags(s, b.subrange(j, flags.len() + 1int));
            &&& spec_cluster(b, j, s) == ClusterEnd::NeedsValue(st, letter)
            &&& spec_cluster(a, j, s) == match spec_apply_value(letter, value, st) {
                Ok(s2) => ClusterEnd::Done(s2),
                Err(m) => ClusterEnd::Fail(m),
            }
        }),
    decreases flags.len() + 1 - j,
{
    let b = seq!['-'] + flags + seq![letter];
    let a = b + value;
    let p: int = flags.len() + 1int;
    assert(b[p] == letter);
    assert(a[p] == letter);
    if j == p {
        assert(b.subrange(j, p).len() == 0);
        assert(a.skip(j + 1) =~= value);
    } else {
        assert(b[j] == flags[j - 1]);
        assert(a[j] == flags[j - 1]);
        lemma_cluster_attached(flags, letter, value, j + 1, set_flag(s, b[j]));
        assert(b.subrange(j, p).drop_first() =~= b.subrange(j + 1, p));
        assert(b.subrange(j, p)[0] == b[j]);
    }
}

/// The value of `-t` or `-w` may be attached to its word or be the next word:
/// `-dt10` reads as `-dt 10`.
pub proof fn lemma_attached_value_same_as_next_word(
    flags: Seq<char>,
    letter: char,
    value: Seq<char>,
    rest: Seq<Seq<char>>,
    s: Settings,
)
    requires
        forall|k: int| 0 <= k < flags.len() ==> is_flag_letter(#[trigger] flags[k]),
        is_value_letter(letter),
        value.len() > 0,
    ensures
        spec_parse_args(seq![seq!['-'] + flags + seq![letter] + value] + rest, s)
            == spec_parse_args(seq![seq!['-'] + flags + seq![letter], value] + rest, s),
{
    reveal_strlit("--");
    let b = seq!['-'] + flags + seq![letter];
    let a = b + value;
    let args_a = seq![a] + rest;
    let args_b = seq![b, value] + rest;
    lemma_cluster_attached(flags, letter, value, 1, s);
    assert(args_a[0] == a);
    assert(args_b[0] == b);
    assert(args_b[1] == value);
    assert(a.len() >= 3);
    assert(b[1] == if flags.len() > 0 { flags[0] } else { letter });
    assert(b != "--"@);
    assert(a != "--"@);
    assert(args_a.drop_first() =~= rest);
    assert(args_b.skip(2) =~= rest);
}

/// The words `-f` for each flag letter `f` of `fl`.
pub open spec fn separate_flag_words(fl: Seq<char>) -> Seq<Seq<char>> {
    fl.map_values(|c: char| seq!['-', c])
}

/// A word of flag letters sets their assertions and reading goes on with the
/// next word.
proof fn lemma_flag_word(fl: Seq<char>, rest: Seq<Seq<char>>, s: Settings)
    requires
        fl.len() > 0,
        forall|k: int| 0 <= k < fl.len() ==> is_flag_letter(#[trigger] fl[k]),
    ensures
        spec_parse_args(seq![seq!['-'] + fl] + rest, s) == spec_parse_args(
            rest,
            apply_flags(s, fl),
        ),
{
    reveal_strlit("--");
    let w = seq!['-'] + fl;
    let args = seq![w] + rest;
    assert(args[0] == w);
    assert(w[1] == fl[0]);
    assert(w != "--"@);
    lemma_cluster_of_flags(w, 1, s);
    assert(w.skip(1) =~= fl);
    assert(args.drop_first() =~= rest);
}

/// Flag letters combined in one word read as the same letters in words of their
/// own: `-dism` reads as `-d -i -s -m`.
pub proof fn lemma_combined_flags_same_as_separate(
    flags: Seq<char>,
    rest: Seq<Seq<char>>,
    s: Settings,
)
    requires
        flags.len() > 0,
        forall|k: int| 0 <= k < flags.len() ==> is_flag_letter(#[trigger] flags[k]),
    ensures
        spec_parse_args(seq![seq!['-'] + flags] + rest, s) == spec_parse_args(
            separate_flag_words(flags) + rest,
            s,
        ),
    decreases flags.len(),
{
    let f0 = flags[0];
    let tail = flags.drop_first();
    let s1 = set_flag(s, f0);
    lemma_flag_word(flags, rest, s);
    assert(apply_flags(s, flags) == apply_flags(s1, tail));
    let sep = separate_flag_words(flags) + rest;
    assert(sep[0] == seq!['-'] + seq![f0]);
    assert(seq![f0][0] == f0);
    lemma_flag_word(seq![f0], sep.drop_first(), s);
    assert(seq![seq!['-'] + seq![f0]] + sep.drop_first() =~= sep);
    assert(seq![f0].drop_first().len() == 0);
    assert(apply_flags(s, seq![f0]) == apply_flags(s1, seq![f0].drop_first()));
    if tail.len() == 0 {
        assert(sep.drop_first() =~= rest);
    } else {
        assert(sep.drop_first() =~= separate_flag_words(tail) + rest);
        lemma_combined_flags_same_as_separate(tail, rest, s1);
        lemma_flag_word(tail, rest, s1);
    }
}

/// `--` ends the options: every word after it belongs to the utility.
pub proof fn lemma_dash_dash_ends_options(rest: Seq<Seq<char>>, s: Settings)
    ensures
        spec_parse_args(seq!["--"@] + rest, s) == Ok::<OptionsView, Seq<char>>(
            with_utility(s, rest),
        ),
{
    assert((seq!["--"@] + rest)[0] == "--"@);
    assert((seq!["--"@] + rest).drop_first() =~= rest);
}

/// The first word that holds no options starts the utility, which takes it and
/// every word after it, options or not.
pub proof fn lemma_utility_takes_remaining_words(w: Seq<char>, rest: Seq<Seq<char>>, s: Settings)
    requires
        !is_option_word(w),
    ensures
        spec_parse_args(seq![w] + rest, s) == Ok::<OptionsView, Seq<char>>(
            with_utility(s, seq![w] + rest),
        ),
{
    reveal_strlit("--");
    assert((seq![w] + rest)[0] == w);
    if w == "--"@ {
        assert(w[0] == '-' && w.len() == 2);
    }
}

} // verus!

verus! {

/// One of the letters `d`, `i`, `m`, `s`, `u`, each of which names an assertion.
pub open spec fn names_assertion(c: char) -> bool {
    c == 'd' || c == 'i' || c == 'm' || c == 's' || c == 'u'
}

/// `a` with the assertions that the letters of `fl` name added to it.
pub open spec fn assertions_named_by(a: Assertions, fl: Seq<char>) -> Assertions {
    Assertions {
        display: a.display || fl.contains('d'),
        idle: a.idle || fl.contains('i'),
        disk: a.disk || fl.contains('m'),
        system: a.system || fl.contains('s'),
        user_active: a.user_active || fl.contains('u'),
    }
}

/// Setting the flags of `fl` adds exactly the assertions that its letters name
/// and leaves the timeout and the watched process alone.
proof fn lemma_apply_flags_named(s: Settings, fl: Seq<char>)
    requires
        forall|k: int| 0 <= k < fl.len() ==> names_assertion(#[trigger] fl[k]),
    ensures
        apply_flags(s, fl).assertions == assertions_named_by(s.assertions, fl),
        apply_flags(s, fl).timeout_secs == s.timeout_secs,
        apply_flags(s, fl).wait_pid == s.wait_pid,
    decreases fl.len(),
{
    if fl.len() == 0 {
        assert(!fl.contains('d') && !fl.contains('i') && !fl.contains('m'));
        assert(!fl.contains('s') && !fl.contains('u'));
    } else {
        let t = fl.drop_first();
        let c = fl[0];
        assert(names_assertion(fl[0]));
        assert forall|k: int| 0 <= k < t.len() implies names_assertion(#[trigger] t[k]) by {
            assert(t[k] == fl[k + 1]);
        }
        lemma_apply_flags_named(set_flag(s, c), t);
        assert forall|x: char| fl.contains(x) <==> (c == x || t.contains(x)) by {
            if fl.contains(x) {
                let i = choose|i: int| 0 <= i < fl.len() && fl[i] == x;
                if i > 0 {
                    assert(t[i - 1] == x);
                }
            }
            if t.contains(x) {
                let i = choose|i: int| 0 <= i < t.len() && t[i] == x;
                assert(fl[i + 1] == x);
            }
            if c == x {
                assert(fl[0] == x);
            }
        }
    }
}

/// Reading letters that name assertions up to position `k` of an option word.
proof fn lemma_cluster_runs_to(arg: Seq<char>, j: int, k: int, s: Settings)
    requires
        1 <= j <= k <= arg.len(),
        forall|i: int| j <= i < k ==> names_assertion(#[trigger] arg[i]),
    ensures
        spec_cluster(arg, j, s) == spec_cluster(arg, k, apply_flags(s, arg.subrange(j, k))),
    decreases k - j,
{
    if j == k {
        assert(arg.subrange(j, k).len() == 0);
    } else {
        lemma_cluster_runs_to(arg, j + 1, k, set_flag(s, arg[j]));
        assert(arg.subrange(j, k).drop_first() =~= arg.subrange(j + 1, k));
        assert(arg.subrange(j, k)[0] == arg[j]);
    }
}

/// A value of `-t` or `-w` changes no assertion.
proof fn lemma_value_keeps_assertions(letter: char, value: Seq<char>, s: Settings)
    ensures
        spec_apply_value(letter, value, s) matches Ok(s2) ==> s2.assertions == s.assertions,
{
}

/// An option word sets exactly the assertions that its letters name, up to the
/// first letter that names none (`k`, or its end): `-d` the display, `-i` idle,
/// `-m` disk, `-s` system and `-u` user activity, and none other, whatever
/// follows.
pub proof fn lemma_option_word_sets_named_assertions(arg: Seq<char>, k: int, s: Settings)
    requires
        1 <= k <= arg.len(),
        forall|i: int| 1 <= i < k ==> names_assertion(#[trigger] arg[i]),
        k == arg.len() || !names_assertion(arg[k]),
    ensures
        match spec_cluster(arg, 1, s) {
            ClusterEnd::Done(s2) => s2.assertions == assertions_named_by(
                s.assertions,
                arg.subrange(1, k),
            ),
            ClusterEnd::NeedsValue(s2, _) => s2.assertions == assertions_named_by(
                s.assertions,
                arg.subrange(1, k),
            ) && s2.timeout_secs == s.timeout_secs && s2.wait_pid == s.wait_pid,
            ClusterEnd::Fail(_) => true,
        },
{
    let fl = arg.subrange(1, k);
    lemma_cluster_runs_to(arg, 1, k, s);
    assert forall|i: int| 0 <= i < fl.len() implies names_assertion(#[trigger] fl[i]) by {
        assert(fl[i] == arg[i + 1]);
    }
    lemma_apply_flags_named(s, fl);
    let st = apply_flags(s, fl);
    if k < arg.len() {
        lemma_value_keeps_assertions(arg[k], arg.skip(k + 1), st);
    }
}

/// A command line of one word of assertion letters gives exactly the
/// assertions those letters name, with no timeout, no process to wait for and
/// no utility: `caffeinate -i` asserts idle and nothing else.
pub proof fn lemma_flag_word_gives_named_assertions(fl: Seq<char>)
    requires
        fl.len() > 0,
        forall|k: int| 0 <= k < fl.len() ==> names_assertion(#[trigger] fl[k]),
    ensures
        spec_parse_options(seq![seq!['-'] + fl]) == Ok::<OptionsView, Seq<char>>(
            OptionsView {
                assertions: Assertions {
                    display: fl.contains('d'),
                    idle: fl.contains('i'),
                    disk: fl.contains('m'),
                    system: fl.contains('s'),
                    user_active: fl.contains('u'),
                },
                timeout_secs: None,
                wait_pid: None,
                utility: seq![],
            },
        ),
{
    let empty = Seq::<Seq<char>>::empty();
    assert(seq![seq!['-'] + fl] + empty =~= seq![seq!['-'] + fl]);
    assert forall|k: int| 0 <= k < fl.len() implies is_flag_letter(#[trigger] fl[k]) by {
        assert(names_assertion(fl[k]));
    }
    lemma_flag_word(fl, empty, initial_settings());
    lemma_apply_flags_named(initial_settings(), fl);
}

} // verus!
