//! Proved laws of session reconstruction.
//!
//! Each public proof function here states a guarantee of the engine over
//! the spec functions that the contracts of [`crate::engine::reconstruct`]
//! and [`crate::sweep::reconstruct_linear`] are written in: what
//! [`crate::engine::spec_reconstruct`] yields is thereby pinned down for
//! every record sequence, not only the ones the tests run.

use vstd::prelude::*;

use crate::engine::enter_of;
use crate::engine::enters_in;
use crate::engine::exit_outcome;
use crate::engine::first_exit;
use crate::engine::lemma_first_exit_skip;
use crate::engine::spec_reconstruct;
use crate::model::Enter;
use crate::model::Exit;
use crate::model::LogRecord;
use crate::model::closing_exit;
use crate::model::is_restart_marker;
use crate::model::login_line;

verus! {

/// The number of login records at indices `[lo, hi)`.
pub open spec fn num_logins(records: Seq<LogRecord>, lo: int, hi: int) -> int
    decreases hi - lo,
{
    if lo >= hi {
        0
    } else {
        num_logins(records, lo, hi - 1) + if records[hi - 1] is UserProcess {
            1int
        } else {
            0int
        }
    }
}

proof fn lemma_num_logins_nonneg(records: Seq<LogRecord>, lo: int, hi: int)
    ensures
        num_logins(records, lo, hi) >= 0,
    decreases hi - lo,
{
    if lo < hi {
        lemma_num_logins_nonneg(records, lo, hi - 1);
    }
}

proof fn lemma_num_logins_split(records: Seq<LogRecord>, lo: int, mid: int, hi: int)
    requires
        lo <= mid <= hi,
    ensures
        num_logins(records, lo, hi) == num_logins(records, lo, mid) + num_logins(
            records,
            mid,
            hi,
        ),
    decreases hi - mid,
{
    if mid < hi {
        lemma_num_logins_split(records, lo, mid, hi - 1);
    }
}

proof fn lemma_enters_in_len(records: Seq<LogRecord>, lo: int, hi: int)
    ensures
        enters_in(records, lo, hi).len() == num_logins(records, lo, hi),
    decreases hi - lo,
{
    if lo < hi {
        lemma_enters_in_len(records, lo, hi - 1);
    }
}

proof fn lemma_enters_in_position(records: Seq<LogRecord>, lo: int, hi: int, i: int)
    requires
        0 <= lo <= i < hi <= records.len(),
        records[i] is UserProcess,
    ensures
        0 <= num_logins(records, i + 1, hi) < enters_in(records, lo, hi).len(),
        enters_in(records, lo, hi)[num_logins(records, i + 1, hi)] == enter_of(records, i),
    decreases hi - lo,
{
    lemma_enters_in_len(records, lo, hi);
    lemma_num_logins_nonneg(records, i + 1, hi);
    lemma_num_logins_split(records, lo, i, hi);
    lemma_num_logins_split(records, i, i + 1, hi);
    lemma_num_logins_nonneg(records, lo, i);
    if i == hi - 1 {
        assert(num_logins(records, i + 1, hi) == 0);
    } else {
        lemma_enters_in_position(records, lo, hi - 1, i);
        if records[hi - 1] is UserProcess {
            assert((seq![enter_of(records, hi - 1)] + enters_in(records, lo, hi - 1))[num_logins(
                records,
                i + 1,
                hi,
            )] == enters_in(records, lo, hi - 1)[num_logins(records, i + 1, hi - 1)]);
        }
    }
}

/// Reconstruction yields exactly one session per login record, assembled
/// from the login's own fields: the output's length is the number of login
/// records, and the login at index `i` stands at the output position given
/// by the number of logins after it (the output runs most recent first),
/// carrying that login's `user`, `host`, `line` and `login_time` and the
/// exit resolved by scanning the records strictly after `i`.
pub proof fn lemma_one_enter_per_login(records: Seq<LogRecord>, i: int)
    requires
        0 <= i < records.len(),
        records[i] is UserProcess,
    ensures
        spec_reconstruct(records).len() == num_logins(records, 0, records.len() as int),
        0 <= num_logins(records, i + 1, records.len() as int) < spec_reconstruct(records).len(),
        spec_reconstruct(records)[num_logins(records, i + 1, records.len() as int)] == enter_of(
            records,
            i,
        ),
        records[i] matches LogRecord::UserProcess { user, host, line, time } ==> enter_of(
            records,
            i,
        ) == (Enter {
            user,
            host,
            line,
            login_time: time,
            exit: exit_outcome(first_exit(records, line@, i + 1)),
        }),
{
    lemma_enters_in_len(records, 0, records.len() as int);
    lemma_enters_in_position(records, 0, records.len() as int, i);
}

proof fn lemma_enters_in_source(records: Seq<LogRecord>, lo: int, hi: int, k: int)
    requires
        0 <= lo <= hi <= records.len(),
        0 <= k < enters_in(records, lo, hi).len(),
    ensures
        exists|i: int|
            #![trigger records[i]]
            lo <= i < hi && records[i] is UserProcess && enters_in(records, lo, hi)[k] == enter_of(
                records,
                i,
            ) && num_logins(records, i + 1, hi) == k,
    decreases hi - lo,
{
    if records[hi - 1] is UserProcess && k == 0 {
        assert(num_logins(records, hi, hi) == 0);
        assert(records[hi - 1] is UserProcess && enters_in(records, lo, hi)[0] == enter_of(
            records,
            hi - 1,
        ) && num_logins(records, hi - 1 + 1, hi) == 0);
    } else if records[hi - 1] is UserProcess {
        lemma_enters_in_source(records, lo, hi - 1, k - 1);
        let i = choose|i: int|
            #![trigger records[i]]
            lo <= i < hi - 1 && records[i] is UserProcess && enters_in(records, lo, hi - 1)[k - 1]
                == enter_of(records, i) && num_logins(records, i + 1, hi - 1) == k - 1;
        assert(enters_in(records, lo, hi)[k] == enters_in(records, lo, hi - 1)[k - 1]);
        assert(num_logins(records, i + 1, hi) == k);
        assert(records[i] is UserProcess);
    } else {
        lemma_enters_in_source(records, lo, hi - 1, k);
        let i = choose|i: int|
            #![trigger records[i]]
            lo <= i < hi - 1 && records[i] is UserProcess && enters_in(records, lo, hi - 1)[k]
                == enter_of(records, i) && num_logins(records, i + 1, hi - 1) == k;
        assert(num_logins(records, i + 1, hi) == k);
        assert(records[i] is UserProcess);
    }
}

/// Reconstruction invents nothing: every entry of the output is the
/// session of some login record, standing at the position given by the
/// number of logins after it. Together with
/// [`lemma_one_enter_per_login`] and [`lemma_login_positions_distinct`],
/// the output is exactly one session per login record.
pub proof fn lemma_every_enter_from_a_login(records: Seq<LogRecord>, k: int)
    requires
        0 <= k < spec_reconstruct(records).len(),
    ensures
        exists|i: int|
            #![trigger records[i]]
            0 <= i < records.len() && records[i] is UserProcess && spec_reconstruct(records)[k]
                == enter_of(records, i) && num_logins(records, i + 1, records.len() as int) == k,
{
    lemma_enters_in_source(records, 0, records.len() as int, k);
}

/// Distinct logins occupy distinct output positions: the later (more
/// recent) of two logins stands earlier in the output.
pub proof fn lemma_login_positions_distinct(records: Seq<LogRecord>, i: int, j: int)
    requires
        0 <= i < j < records.len(),
        records[i] is UserProcess,
        records[j] is UserProcess,
    ensures
        num_logins(records, j + 1, records.len() as int) < num_logins(
            records,
            i + 1,
            records.len() as int,
        ),
{
    let hi = records.len() as int;
    lemma_num_logins_split(records, i + 1, j, hi);
    lemma_num_logins_split(records, j, j + 1, hi);
    lemma_num_logins_nonneg(records, i + 1, j);
    assert(num_logins(records, j, j) == 0);
    assert(num_logins(records, j, j + 1) == 1);
}

/// Reconstruction is deterministic, hence idempotent: any two runs over
/// the same immutable record sequence yield identical output, because
/// [`crate::engine::reconstruct`] promises its output equals
/// [`spec_reconstruct`] of the input, a pure function.
pub proof fn lemma_reconstruct_deterministic(
    records: Seq<LogRecord>,
    out1: Seq<Enter>,
    out2: Seq<Enter>,
)
    requires
        out1 == spec_reconstruct(records),
        out2 == spec_reconstruct(records),
    ensures
        out1 == out2,
{
}

/// A login with no qualifying record after it is still open: if no record
/// strictly after the login closes a session on the login's line, the
/// login's exit is `StillLoggedIn`.
pub proof fn lemma_no_match_still_logged_in(records: Seq<LogRecord>, i: int)
    requires
        0 <= i < records.len(),
        records[i] is UserProcess,
        forall|j: int|
            i < j < records.len() ==> closing_exit(records[j], login_line(records[i])) is None,
    ensures
        enter_of(records, i).exit == Exit::StillLoggedIn,
{
    lemma_first_exit_skip(records, login_line(records[i]), i + 1, records.len() as int);
}

/// The first qualifying record wins: if the record at `k` closes a session
/// on the login's line and no record strictly between the login and `k`
/// does, the login's exit is exactly the exit that record implies — no
/// later record is ever consulted, even if it would also qualify.
pub proof fn lemma_first_qualifying_record_wins(records: Seq<LogRecord>, i: int, k: int)
    requires
        0 <= i < k < records.len(),
        records[i] is UserProcess,
        closing_exit(records[k], login_line(records[i])) is Some,
        forall|m: int| i < m < k ==> closing_exit(records[m], login_line(records[i])) is None,
    ensures
        enter_of(records, i).exit == exit_outcome(closing_exit(records[k], login_line(records[i]))),
{
    lemma_first_exit_skip(records, login_line(records[i]), i + 1, k);
}

/// If the nearest qualifying record after a login is a `DeadProcess` on
/// the same line, the login resolves to `Logout` at that record's time;
/// records beyond it are never consulted.
pub proof fn lemma_nearest_dead_process_gives_logout(
    records: Seq<LogRecord>,
    i: int,
    k: int,
    l: String,
    t: i64,
)
    requires
        0 <= i < k < records.len(),
        records[i] is UserProcess,
        records[k] == (LogRecord::DeadProcess { line: l, time: t }),
        l@ == login_line(records[i]),
        forall|m: int| i < m < k ==> closing_exit(records[m], login_line(records[i])) is None,
    ensures
        enter_of(records, i).exit == Exit::Logout(t),
{
    lemma_first_qualifying_record_wins(records, i, k);
}

/// A restart or shutdown marker closes a session on every terminal line:
/// its qualification does not depend on the login's line at all.
pub proof fn lemma_restart_marker_closes_any_line(r: LogRecord, line: Seq<char>)
    requires
        is_restart_marker(r),
    ensures
        closing_exit(r, line) is Some,
{
}

/// A `BootTime`, `ShutdownTime` or `RunLevel { user: "shutdown" }` record
/// closes every still-open login whose scan reaches it, regardless of the
/// login's line: as a `Crash` for `BootTime`, as a `Reboot` for the two
/// shutdown forms, each at the marker's own time.
pub proof fn lemma_restart_closes_every_open_login(records: Seq<LogRecord>, i: int, k: int)
    requires
        0 <= i < k < records.len(),
        records[i] is UserProcess,
        is_restart_marker(records[k]),
        forall|m: int| i < m < k ==> closing_exit(records[m], login_line(records[i])) is None,
    ensures
        records[k] matches LogRecord::BootTime { time } ==> enter_of(records, i).exit
            == Exit::Crash(time),
        records[k] matches LogRecord::ShutdownTime { time } ==> enter_of(records, i).exit
            == Exit::Reboot(time),
        records[k] matches LogRecord::RunLevel { user, pid, time } ==> enter_of(records, i).exit
            == Exit::Reboot(time),
{
    lemma_restart_marker_closes_any_line(records[k], login_line(records[i]));
    lemma_first_qualifying_record_wins(records, i, k);
}

} // verus!
