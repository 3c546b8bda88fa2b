//! The session reconstruction engine: a forward matching scan over the
//! ordered record sequence.
//!
//! For every login record, the engine searches the records strictly after it
//! (in sequence order, oldest first) and resolves the login's exit as the
//! first record that satisfies any of the matching rules of
//! [`closing_exit`]; if no record matches, the session is still open. The
//! result sequence holds one [`Enter`] per login, most recent login first.

use vstd::prelude::*;

use crate::model::Enter;
use crate::model::Exit;
use crate::model::LastError;
use crate::model::LogRecord;
use crate::model::closing_exit;
use crate::model::reboot_runlevel;

verus! {

/// The exit implied by the first record at index `from` or later that
/// closes a session on terminal `line`, or `None` when no record from
/// `from` onward matches.
pub open spec fn first_exit(records: Seq<LogRecord>, line: Seq<char>, from: int) -> Option<Exit>
    decreases records.len() - from,
{
    if from < 0 || from >= records.len() {
        None
    } else if closing_exit(records[from], line) is Some {
        closing_exit(records[from], line)
    } else {
        first_exit(records, line, from + 1)
    }
}

/// The exit outcome of a scan: the matched exit, or `StillLoggedIn` when
/// the scan found none.
pub open spec fn exit_outcome(found: Option<Exit>) -> Exit {
    match found {
        Some(e) => e,
        None => Exit::StillLoggedIn,
    }
}

/// The session reconstructed for the login at index `i`: the login's own
/// fields, paired with the exit resolved by scanning the records strictly
/// after `i`.
pub open spec fn enter_of(records: Seq<LogRecord>, i: int) -> Enter
    recommends
        0 <= i < records.len(),
        records[i] is UserProcess,
{
    match records[i] {
        LogRecord::UserProcess { user, host, line, time } => (Enter {
            user,
            host,
            line,
            login_time: time,
            exit: exit_outcome(first_exit(records, line@, i + 1)),
        }),
        _ => arbitrary(),
    }
}

/// The sessions of all logins at indices in `[lo, hi)`, most recent login
/// first. Each login's exit is resolved against the full record sequence.
pub open spec fn enters_in(records: Seq<LogRecord>, lo: int, hi: int) -> Seq<Enter>
    decreases hi - lo,
{
    if lo >= hi {
        Seq::empty()
    } else if records[hi - 1] is UserProcess {
        seq![enter_of(records, hi - 1)] + enters_in(records, lo, hi - 1)
    } else {
        enters_in(records, lo, hi - 1)
    }
}

/// The full reconstruction of a record sequence: one session per login,
/// most recent login first.
pub open spec fn spec_reconstruct(records: Seq<LogRecord>) -> Seq<Enter> {
    enters_in(records, 0, records.len() as int)
}

/// Skipping records that do not match leaves the scan's result unchanged:
/// if no record in `[from, k)` closes a session on `line`, the scan from
/// `from` resolves as the scan from `k`.
pub proof fn lemma_first_exit_skip(records: Seq<LogRecord>, line: Seq<char>, from: int, k: int)
    requires
        0 <= from <= k <= records.len(),
        forall|m: int| from <= m < k ==> closing_exit(records[m], line) is None,
    ensures
        first_exit(records, line, from) == first_exit(records, line, k),
    decreases k - from,
{
    if from < k {
        lemma_first_exit_skip(records, line, from + 1, k);
    }
}

/// Applies the matching rules of [`closing_exit`] to one candidate record
/// on behalf of a login on terminal `target_line`.
fn record_exit(rec: &LogRecord, target_line: &String) -> (r: Option<Exit>)
    ensures
        r == closing_exit(*rec, target_line@),
{
    match rec {
        LogRecord::DeadProcess { line, time } => {
            if *line == *target_line {
                Some(Exit::Logout(*time))
            } else {
                None
            }
        },
        LogRecord::RunLevel { user, pid, time } => {
            let shutdown_name: String = "shutdown".to_owned();
            let runlevel_name: String = "runlevel".to_owned();
            if *user == shutdown_name {
                Some(Exit::Reboot(*time))
            } else if *user == runlevel_name && reboot_runlevel(*pid) {
                Some(Exit::Reboot(*time))
            } else {
                None
            }
        },
        LogRecord::BootTime { time } => Some(Exit::Crash(*time)),
        LogRecord::ShutdownTime { time } => Some(Exit::Reboot(*time)),
        _ => None,
    }
}

/// Scans the records at indices `[from, records.len())`, in order, for the
/// first one that closes a session on terminal `target_line`, and returns
/// the exit it implies; `None` when no record in that range matches.
pub fn find_accompanying_logout(records: &Vec<LogRecord>, from: usize, target_line: &String) -> (r:
    Option<Exit>)
    ensures
        r == first_exit(records@, target_line@, from as int),
{
    let mut j: usize = from;
    while j < records.len()
        invariant
            from <= j,
            j <= records@.len() || j == from,
            forall|m: int| from <= m < j ==> closing_exit(records@[m], target_line@) is None,
        decreases records@.len() - j,
    {
        let found = record_exit(&records[j], target_line);
        if found.is_some() {
            proof {
                lemma_first_exit_skip(records@, target_line@, from as int, j as int);
            }
            return found;
        }
        j += 1;
    }
    proof {
        if (from as int) < records@.len() {
            lemma_first_exit_skip(records@, target_line@, from as int, records@.len() as int);
        }
    }
    None
}

/// Reconstructs every session of a chronologically ordered record sequence
/// (oldest first): one [`Enter`] per login record, carrying the login's
/// `user`, `host`, `line` and `login_time` together with the resolved exit,
/// ordered most recent login first. A pure function of its input.
pub fn reconstruct(records: &Vec<LogRecord>) -> (out: Vec<Enter>)
    ensures
        out@ == spec_reconstruct(records@),
{
    let mut out: Vec<Enter> = Vec::new();
    let mut i: usize = records.len();
    while i > 0
        invariant
            i <= records@.len(),
            out@ == enters_in(records@, i as int, records@.len() as int),
        decreases i,
    {
        i = i - 1;
        if let LogRecord::UserProcess { user, host, line, time } = &records[i] {
            let exit = exit_outcome_exec(find_accompanying_logout(records, i + 1, line));
            let entry = Enter {
                user: user.clone(),
                host: host.clone(),
                line: line.clone(),
                login_time: *time,
                exit,
            };
            proof {
                lemma_enters_in_peel_oldest(records@, i as int, records@.len() as int);
                assert(out@.push(entry) =~= enters_in(records@, i as int, records@.len() as int));
            }
            out.push(entry);
        } else {
            proof {
                lemma_enters_in_peel_oldest(records@, i as int, records@.len() as int);
                assert(out@ =~= enters_in(records@, i as int, records@.len() as int));
            }
        }
    }
    out
}

/// Turns the result of a scan into the session's exit: the matched exit, or
/// `StillLoggedIn` when the scan found none.
fn exit_outcome_exec(found: Option<Exit>) -> (e: Exit)
    ensures
        e == exit_outcome(found),
{
    match found {
        Some(e) => e,
        None => Exit::StillLoggedIn,
    }
}

/// Peeling the oldest index out of a session range: the sessions of logins
/// in `[lo, hi)` are the sessions of logins in `[lo + 1, hi)` followed, at
/// the old end, by the session of `lo` when `lo` is a login.
pub(crate) proof fn lemma_enters_in_peel_oldest(records: Seq<LogRecord>, lo: int, hi: int)
    requires
        0 <= lo < hi <= records.len(),
    ensures
        records[lo] is UserProcess ==> enters_in(records, lo, hi) =~= enters_in(
            records,
            lo + 1,
            hi,
        ).push(enter_of(records, lo)),
        !(records[lo] is UserProcess) ==> enters_in(records, lo, hi) =~= enters_in(
            records,
            lo + 1,
            hi,
        ),
    decreases hi - lo,
{
    let e_lo = enter_of(records, lo);
    if hi - 1 == lo {
        assert(enters_in(records, lo, lo) == Seq::<Enter>::empty());
        assert(enters_in(records, lo + 1, hi) == Seq::<Enter>::empty());
        if records[lo] is UserProcess {
            assert(enters_in(records, lo, hi) == seq![e_lo] + enters_in(records, lo, lo));
            assert(seq![e_lo] + Seq::<Enter>::empty() =~= Seq::<Enter>::empty().push(e_lo));
        }
    } else {
        lemma_enters_in_peel_oldest(records, lo, hi - 1);
        if records[lo] is UserProcess && records[hi - 1] is UserProcess {
            assert(seq![enter_of(records, hi - 1)] + enters_in(records, lo + 1, hi - 1).push(e_lo)
                =~= (seq![enter_of(records, hi - 1)] + enters_in(records, lo + 1, hi - 1)).push(
                e_lo,
            ));
        }
    }
}

/// Propagates the record source's outcome through reconstruction: a decoded
/// record sequence is reconstructed in full; a source error is re-signalled
/// unchanged, reconstruction having no fallible step of its own.
pub fn get_logins(source: Result<Vec<LogRecord>, LastError>) -> (r: Result<Vec<Enter>, LastError>)
    ensures
        source matches Ok(records) ==> r matches Ok(out) && out@ == spec_reconstruct(records@),
        source matches Err(e) ==> r == Result::<Vec<Enter>, LastError>::Err(e),
{
    match source {
        Ok(records) => Ok(reconstruct(&records)),
        Err(e) => Err(e),
    }
}

} // verus!
