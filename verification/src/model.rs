//! Data model: the record kinds read from the accounting log, the resolved
//! session events produced from them, and the per-record matching rules.

use vstd::prelude::*;

verus! {

/// One entry of the accounting log, already decoded into plain values.
///
/// Records are immutable once read; the ordered sequence of records (oldest
/// first) is the single source of truth for reconstruction. Timestamps are
/// Unix timestamps in seconds. `pid` carries the raw process-id field of a
/// runlevel record, whose byte pattern encodes the runlevel transition.
#[derive(Debug, Clone, PartialEq, Eq)]
pub enum LogRecord {
    /// A login on terminal `line`.
    UserProcess { user: String, host: String, line: String, time: i64 },
    /// An orderly end of the session attached to terminal `line`.
    DeadProcess { line: String, time: i64 },
    /// System startup: any session still open before it ended in a crash.
    BootTime { time: i64 },
    /// A runlevel-change marker; its meaning depends on `user` and on the
    /// byte pattern of `pid`.
    RunLevel { user: String, pid: u32, time: i64 },
    /// An explicit shutdown marker, used by some log variants in place of
    /// the `RunLevel { user: "shutdown" }` convention.
    ShutdownTime { time: i64 },
    /// Any record kind the matching rules do not inspect; never a match.
    Other,
}

/// The resolved end of a session: how, and when, a login ended.
///
/// `StillLoggedIn` carries no timestamp: it means no exit record was found
/// in the remainder of the log.
#[derive(Debug, Clone, Copy, PartialEq, Eq)]
pub enum Exit {
    Logout(i64),
    Crash(i64),
    Reboot(i64),
    StillLoggedIn,
}

/// One reconstructed session: the fields of the login record together with
/// the resolved exit outcome.
#[derive(Debug, Clone, PartialEq, Eq)]
pub struct Enter {
    pub user: String,
    pub host: String,
    pub line: String,
    pub login_time: i64,
    pub exit: Exit,
}

/// Failure of the record source: the log could not be decoded. The message
/// is the decoder's own description of the fault. Reconstruction itself has
/// no other failure mode; it propagates this error unchanged.
#[derive(Debug, Clone, PartialEq, Eq)]
pub enum LastError {
    UtmpParse(String),
}

impl LastError {
    /// A human-readable description of the error.
    pub fn message(&self) -> (m: String)
        ensures
            self matches LastError::UtmpParse(s) ==> m@ == s@,
    {
        match self {
            LastError::UtmpParse(s) => s.clone(),
        }
    }
}

/// Whether a runlevel record's `pid` field encodes a shutdown or reboot
/// transition: its second-most-significant byte (big-endian), read as an
/// ASCII digit, is `'0'` or `'6'`. Inherited as a black-box convention of
/// the accounting format.
pub open spec fn spec_reboot_runlevel(pid: u32) -> bool {
    ((pid >> 16) & 0xff) == 0x30 || ((pid >> 16) & 0xff) == 0x36
}

/// Exec twin of [`spec_reboot_runlevel`].
#[verifier::when_used_as_spec(spec_reboot_runlevel)]
pub fn reboot_runlevel(pid: u32) -> (b: bool)
    ensures
        b == spec_reboot_runlevel(pid),
{
    ((pid >> 16) & 0xff) == 0x30 || ((pid >> 16) & 0xff) == 0x36
}

/// The terminal line a login record is attached to.
pub open spec fn login_line(r: LogRecord) -> Seq<char>
    recommends
        r is UserProcess,
{
    match r {
        LogRecord::UserProcess { line, .. } => line@,
        _ => Seq::empty(),
    }
}

/// Whether a record marks a system restart or shutdown. Such a record
/// closes every still-open session, whatever terminal line it is attached
/// to, because a restart or shutdown ends all sessions at once.
pub open spec fn is_restart_marker(r: LogRecord) -> bool {
    match r {
        LogRecord::BootTime { .. } => true,
        LogRecord::ShutdownTime { .. } => true,
        LogRecord::RunLevel { user, .. } => user@ == "shutdown"@,
        _ => false,
    }
}

/// Whether a record is an orderly session end on terminal `line`.
pub open spec fn is_dead_on(r: LogRecord, line: Seq<char>) -> bool {
    match r {
        LogRecord::DeadProcess { line: l, .. } => l@ == line,
        _ => false,
    }
}

/// The terminal line of an orderly session end.
pub open spec fn dead_line(r: LogRecord) -> Seq<char>
    recommends
        r is DeadProcess,
{
    match r {
        LogRecord::DeadProcess { line, .. } => line@,
        _ => Seq::empty(),
    }
}

/// Whether a record closes a session on every terminal line: the restart
/// and shutdown forms among the matching rules, whose tests never read the
/// login's line. These are the restart markers together with the runlevel
/// records whose `pid` encodes a shutdown or reboot transition.
pub open spec fn closes_any_line(r: LogRecord) -> bool {
    is_restart_marker(r) || match r {
        LogRecord::RunLevel { user, pid, .. } => user@ == "runlevel"@ && spec_reboot_runlevel(pid),
        _ => false,
    }
}

/// The exit a line-independent closer implies for every still-open
/// session: a `Crash` for a boot record, a `Reboot` for the shutdown and
/// runlevel forms, each at the record's own time.
pub open spec fn global_exit(r: LogRecord) -> Exit
    recommends
        closes_any_line(r),
{
    match r {
        LogRecord::BootTime { time } => Exit::Crash(time),
        LogRecord::ShutdownTime { time } => Exit::Reboot(time),
        LogRecord::RunLevel { time, .. } => Exit::Reboot(time),
        _ => Exit::StillLoggedIn,
    }
}

/// Characterization of the matching rules: a record closes a session on
/// `line` exactly when it is an orderly end on that same line or a
/// line-independent closer. In the first case the session ends in a
/// `Logout` at the record's time; in the second it ends with
/// [`global_exit`] — the same exit for every line.
pub proof fn lemma_closing_exit_cases(r: LogRecord, line: Seq<char>)
    ensures
        closing_exit(r, line) is Some <==> (is_dead_on(r, line) || closes_any_line(r)),
        closes_any_line(r) ==> closing_exit(r, line) == Some(global_exit(r)),
        r matches LogRecord::DeadProcess { line: l, time } ==> (l@ == line ==> closing_exit(
            r,
            line,
        ) == Some(Exit::Logout(time))),
{
}

/// The matching rules, applied to one candidate record on behalf of a login
/// on terminal `line`: the exit this record implies for that login, or
/// `None` when the record does not close the session.
///
/// The tests are listed in priority order; the first satisfied test
/// decides. At most one of them can apply to any single record — the two
/// `RunLevel` tests exclude each other by `user` — so grouping the match
/// below by record kind implements the same decision:
/// - a `DeadProcess` on the same `line` is an orderly `Logout`;
/// - a `RunLevel` with user `"shutdown"` is a `Reboot`;
/// - a `BootTime` is a `Crash` (an unclean restart ended the session);
/// - a `ShutdownTime` is a `Reboot`;
/// - a `RunLevel` with user `"runlevel"` whose `pid` encodes runlevel `'0'`
///   or `'6'` is a `Reboot`.
/// Every other record is not a match.
pub open spec fn closing_exit(r: LogRecord, line: Seq<char>) -> Option<Exit> {
    match r {
        LogRecord::DeadProcess { line: l, time } => if l@ == line {
            Some(Exit::Logout(time))
        } else {
            None
        },
        LogRecord::RunLevel { user, pid, time } => if user@ == "shutdown"@ {
            Some(Exit::Reboot(time))
        } else if user@ == "runlevel"@ && spec_reboot_runlevel(pid) {
            Some(Exit::Reboot(time))
        } else {
            None
        },
        LogRecord::BootTime { time } => Some(Exit::Crash(time)),
        LogRecord::ShutdownTime { time } => Some(Exit::Reboot(time)),
        _ => None,
    }
}

} // verus!
