//! Watching a process by its id: the state and start time that the kernel
//! reports for it (`/proc/<pid>/stat` on Linux), and whether it still runs.

use vstd::prelude::*;

use crate::text::{fields, parse_unsigned, parse_unsigned_str, split_whitespace};

verus! {

/// What the kernel reports of a process: its state letter and the time it
/// started, in clock ticks after boot.
#[derive(Debug, Clone, Copy, PartialEq, Eq, Structural)]
pub struct LinuxPidSnapshot {
    pub state: char,
    pub start_time_ticks: u64,
}

/// The position of the last `c` in `s`.
pub open spec fn last_index_of(s: Seq<char>, c: char) -> Option<int>
    decreases s.len(),
{
    if s.len() == 0 {
        None
    } else if s.last() == c {
        Some(s.len() - 1)
    } else {
        last_index_of(s.drop_last(), c)
    }
}

/// What a line of `/proc/<pid>/stat` tells: `pid (comm) state ... starttime ...`.
/// The command name may hold anything, so the fields are read after the last
/// `)`, one character past it; that character must be ASCII, since the text is
/// cut there at a byte offset. Of the whitespace-separated fields that follow,
/// the first starts with the state letter and the twentieth is the start time.
pub open spec fn spec_pid_stat(content: Seq<char>) -> Option<LinuxPidSnapshot> {
    match last_index_of(content, ')') {
        None => None,
        Some(k) => if k + 1 < content.len() && (content[k + 1] as u32) < 0x80 {
            let f = fields(content.skip(k + 2));
            if f.len() > 19 && f[0].len() > 0 && parse_unsigned(f[19], u64::MAX as nat) is Some {
                Some(
                    LinuxPidSnapshot {
                        state: f[0][0],
                        start_time_ticks: parse_unsigned(f[19], u64::MAX as nat).unwrap() as u64,
                    },
                )
            } else {
                None
            }
        } else {
            None
        },
    }
}

/// The position of the last `c` in `s`.
fn rfind_char(s: &str, c: char) -> (r: Option<usize>)
    ensures
        match r {
            Some(k) => last_index_of(s@, c) == Some(k as int),
            None => last_index_of(s@, c) is None,
        },
        r matches Some(k) ==> k < s@.len(),
{
    let mut k: usize = s.unicode_len();
    assert(s@.take(k as int) =~= s@);
    while k > 0
        invariant
            k <= s@.len(),
            last_index_of(s@, c) == last_index_of(s@.take(k as int), c),
        decreases k,
    {
        let ghost t = s@.take(k as int);
        assert(t.last() == s@[k - 1]);
        if s.get_char(k - 1) == c {
            return Some(k - 1);
        }
        assert(t.drop_last() =~= s@.take(k - 1));
        k = k - 1;
    }
    None
}

/// Reads the state and start time of a process from the text of its
/// `/proc/<pid>/stat`.
pub fn parse_pid_stat(content: &str) -> (r: Option<LinuxPidSnapshot>)
    ensures
        r == spec_pid_stat(content@),
{
    let k = match rfind_char(content, ')') {
        Some(k) => k,
        None => return None,
    };
    let n = content.unicode_len();
    if k + 1 >= n || (content.get_char(k + 1) as u32) >= 0x80 {
        return None;
    }
    let tail = content.substring_char(k + 2, n);
    assert(tail@ =~= content@.skip(k + 2));
    let f = split_whitespace(tail);
    if f.len() <= 19 {
        return None;
    }
    let first = f[0].as_str();
    assert(first@ == fields(tail@)[0]);
    if first.unicode_len() == 0 {
        return None;
    }
    let state = first.get_char(0);
    let ticks = f[19].as_str();
    assert(ticks@ == fields(tail@)[19]);
    match parse_unsigned_str(ticks, u64::MAX) {
        Some(start_time_ticks) => Some(LinuxPidSnapshot { state, start_time_ticks }),
        None => None,
    }
}

/// A process to wait for: its id, and the start time it had when the watch
/// began, so that a later process with the same id is not taken for it.
#[derive(Debug, Clone, Copy)]
pub struct PidWatch {
    pub pid: u32,
    pub start_time_ticks: Option<u64>,
}

/// Whether the watched process still runs, given what the kernel reports now
/// under its id: it must exist, be neither a zombie (`Z`) nor dead (`X`), and
/// have the start time it had when the watch began.
pub open spec fn watch_sees_alive(w: PidWatch, current: Option<LinuxPidSnapshot>) -> bool {
    match current {
        None => false,
        Some(c) => c.state != 'Z' && c.state != 'X' && w.start_time_ticks == Some(
            c.start_time_ticks,
        ),
    }
}

impl PidWatch {
    /// Starts watching `pid`, given what the kernel reports of it now.
    pub fn new(pid: u32, snapshot: Option<LinuxPidSnapshot>) -> (w: Self)
        ensures
            w.pid == pid,
            w.start_time_ticks == match snapshot {
                Some(s) => Some(s.start_time_ticks),
                None => None::<u64>,
            },
    {
        PidWatch {
            pid,
            start_time_ticks: match snapshot {
                Some(s) => Some(s.start_time_ticks),
                None => None,
            },
        }
    }

    /// Whether the watched process still runs, given what the kernel reports
    /// now under its id.
    pub fn is_alive(&self, current: Option<LinuxPidSnapshot>) -> (alive: bool)
        ensures
            alive == watch_sees_alive(*self, current),
    {
        match current {
            None => false,
            Some(c) => {
                if c.state == 'Z' || c.state == 'X' {
                    return false;
                }
                match self.start_time_ticks {
                    Some(t) => t == c.start_time_ticks,
                    None => false,
                }
            },
        }
    }
}

/// A process that did not exist when the watch began is never seen alive.
pub proof fn lemma_unseen_process_never_alive(pid: u32, current: Option<LinuxPidSnapshot>)
    ensures
        !watch_sees_alive(PidWatch { pid, start_time_ticks: None }, current),
{
}

/// A process seen alive has the start time that the watch began with: a new
/// process that reuses the id is not taken for the watched one.
pub proof fn lemma_alive_means_same_process(
    pid: u32,
    first: LinuxPidSnapshot,
    current: LinuxPidSnapshot,
)
    requires
        watch_sees_alive(PidWatch { pid, start_time_ticks: Some(first.start_time_ticks) }, Some(current)),
    ensures
        current.start_time_ticks == first.start_time_ticks,
        current.state != 'Z' && current.state != 'X',
{
}

} // verus!

verus! {

/// A process reported with the start time that the watch began with is seen
/// alive in every state but zombie (`Z`) and dead (`X`); a missing process, a
/// zombie, a dead one or one with another start time is not.
pub proof fn lemma_watch_alive_exactly(pid: u32, start: Option<u64>, current: Option<LinuxPidSnapshot>)
    ensures
        (start is Some && current is Some && current->0.start_time_ticks == start->0
            && current->0.state != 'Z' && current->0.state != 'X') ==> watch_sees_alive(
            PidWatch { pid, start_time_ticks: start },
            current,
        ),
        current is None ==> !watch_sees_alive(PidWatch { pid, start_time_ticks: start }, current),
        (current is Some && (current->0.state == 'Z' || current->0.state == 'X'))
            ==> !watch_sees_alive(PidWatch { pid, start_time_ticks: start }, current),
        (current is Some && start != Some(current->0.start_time_ticks)) ==> !watch_sees_alive(
            PidWatch { pid, start_time_ticks: start },
            current,
        ),
{
}

/// Right after the watch begins on a process that runs, the process is seen
/// alive unless it is a zombie or dead.
pub proof fn lemma_new_watch_sees_running_process(pid: u32, snap: LinuxPidSnapshot)
    requires
        snap.state != 'Z',
        snap.state != 'X',
    ensures
        watch_sees_alive(PidWatch { pid, start_time_ticks: Some(snap.start_time_ticks) }, Some(snap)),
{
}

} // verus!
