//! A linear variant of the reconstruction engine.
//!
//! [`crate::engine::reconstruct`] scans the remainder of the log once per
//! login, which is quadratic in the worst case. The sweep below walks the
//! record sequence backwards exactly once, tracking for every terminal line
//! the nearest future orderly end, and one nearest future line-independent
//! closer shared by all lines, and resolves each login from that state. It
//! promises — and is proved to produce — exactly the same output.

use vstd::prelude::*;

use crate::engine::enters_in;
use crate::engine::exit_outcome;
use crate::engine::first_exit;
use crate::engine::lemma_enters_in_peel_oldest;
use crate::engine::lemma_first_exit_skip;
use crate::engine::spec_reconstruct;
use crate::model::Enter;
use crate::model::Exit;
use crate::model::LogRecord;
use crate::model::closes_any_line;
use crate::model::closing_exit;
use crate::model::dead_line;
use crate::model::global_exit;
use crate::model::is_dead_on;
use crate::model::lemma_closing_exit_cases;
use crate::model::reboot_runlevel;

verus! {

/// What one entry of the sweep's per-line table asserts, with `lo` the
/// lowest index the sweep state currently covers: the record at the
/// entry's index is an orderly end carrying the entry's line and time, and
/// it is the nearest such end on its line at or after `lo`.
pub open spec fn dead_entry_ok(records: Seq<LogRecord>, lo: int, e: (String, usize, i64)) -> bool {
    &&& lo <= e.1 < records.len()
    &&& records[e.1 as int] == (LogRecord::DeadProcess { line: e.0, time: e.2 })
    &&& forall|m: int| lo <= m < e.1 ==> !is_dead_on(records[m], e.0@)
}

/// Finds the table entry recorded for `line`, if any.
fn find_line(deads: &Vec<(String, usize, i64)>, line: &String) -> (r: Option<usize>)
    ensures
        r is None ==> forall|k: int| 0 <= k < deads@.len() ==> (#[trigger] deads@[k]).0@ != line@,
        r matches Some(k) ==> k < deads@.len() && deads@[k as int].0@ == line@,
{
    let mut k: usize = 0;
    while k < deads.len()
        invariant
            k <= deads@.len(),
            forall|m: int| 0 <= m < k ==> (#[trigger] deads@[m]).0@ != line@,
        decreases deads@.len() - k,
    {
        if deads[k].0 == *line {
            return Some(k);
        }
        k += 1;
    }
    None
}

/// Applies the line-independent closing tests to one record: the exit it
/// forces on every still-open session, or `None` when the record closes
/// nothing by itself.
fn global_close(rec: &LogRecord) -> (r: Option<Exit>)
    ensures
        r is Some <==> closes_any_line(*rec),
        r matches Some(e) ==> e == global_exit(*rec),
{
    match rec {
        LogRecord::BootTime { time } => Some(Exit::Crash(*time)),
        LogRecord::ShutdownTime { time } => Some(Exit::Reboot(*time)),
        LogRecord::RunLevel { user, pid, time } => {
            let shutdown_name: String = "shutdown".to_owned();
            let runlevel_name: String = "runlevel".to_owned();
            if *user == shutdown_name || (*user == runlevel_name && reboot_runlevel(*pid)) {
                Some(Exit::Reboot(*time))
            } else {
                None
            }
        },
        _ => None,
    }
}

/// The two nearest-future candidates determine the scan: if no orderly end
/// on the login's line and no line-independent closer follows, the session
/// is still open; otherwise the candidate standing earlier in the sequence
/// decides, an orderly end as a `Logout` at its time, a closer with its
/// own exit.
proof fn lemma_candidates_give_first_exit(
    records: Seq<LogRecord>,
    line: Seq<char>,
    from: int,
    dead: Option<(int, i64)>,
    glob: Option<(int, Exit)>,
)
    requires
        0 <= from <= records.len(),
        dead matches Some(d) ==> from <= d.0 < records.len() && is_dead_on(records[d.0], line)
            && (records[d.0] matches LogRecord::DeadProcess { time, .. } && time == d.1) && (
        forall|m: int| from <= m < d.0 ==> !is_dead_on(records[m], line)),
        dead is None ==> forall|m: int| from <= m < records.len() ==> !is_dead_on(records[m], line),
        glob matches Some(g) ==> from <= g.0 < records.len() && closes_any_line(records[g.0])
            && g.1 == global_exit(records[g.0]) && (forall|m: int|
            from <= m < g.0 ==> !closes_any_line(records[m])),
        glob is None ==> forall|m: int| from <= m < records.len() ==> !closes_any_line(records[m]),
    ensures
        exit_outcome(first_exit(records, line, from)) == (match (dead, glob) {
            (None, None) => Exit::StillLoggedIn,
            (Some(d), None) => Exit::Logout(d.1),
            (None, Some(g)) => g.1,
            (Some(d), Some(g)) => if d.0 < g.0 {
                Exit::Logout(d.1)
            } else {
                g.1
            },
        }),
{
    match (dead, glob) {
        (None, None) => {
            assert forall|m: int| from <= m < records.len() implies closing_exit(
                records[m],
                line,
            ) is None by {
                lemma_closing_exit_cases(records[m], line);
            }
            lemma_first_exit_skip(records, line, from, records.len() as int);
        },
        (Some(d), None) => {
            assert forall|m: int| from <= m < d.0 implies closing_exit(records[m], line) is None by {
                lemma_closing_exit_cases(records[m], line);
            }
            lemma_first_exit_skip(records, line, from, d.0);
            lemma_closing_exit_cases(records[d.0], line);
        },
        (None, Some(g)) => {
            assert forall|m: int| from <= m < g.0 implies closing_exit(records[m], line) is None by {
                lemma_closing_exit_cases(records[m], line);
            }
            lemma_first_exit_skip(records, line, from, g.0);
            lemma_closing_exit_cases(records[g.0], line);
        },
        (Some(d), Some(g)) => {
            let stop = if d.0 < g.0 {
                d.0
            } else {
                g.0
            };
            assert(d.0 != g.0);
            assert forall|m: int| from <= m < stop implies closing_exit(records[m], line) is None by {
                lemma_closing_exit_cases(records[m], line);
            }
            lemma_first_exit_skip(records, line, from, stop);
            lemma_closing_exit_cases(records[stop], line);
        },
    }
}

/// Reconstructs every session in one backward sweep over the record
/// sequence, producing exactly the output of
/// [`crate::engine::reconstruct`]: one [`Enter`] per login, most recent
/// login first. Walking from the most recent record toward the oldest,
/// the sweep keeps for each terminal line the nearest future orderly end
/// (`deads`), and the nearest future line-independent closer shared by
/// every line (`restart`), and resolves each login from that state alone.
#[verifier::rlimit(50)]
pub fn reconstruct_linear(records: &Vec<LogRecord>) -> (out: Vec<Enter>)
    ensures
        out@ == spec_reconstruct(records@),
{
    let mut out: Vec<Enter> = Vec::new();
    let mut deads: Vec<(String, usize, i64)> = Vec::new();
    let mut restart: Option<(usize, Exit)> = None;
    let mut i: usize = records.len();
    while i > 0
        invariant
            i <= records@.len(),
            out@ == enters_in(records@, i as int, records@.len() as int),
            restart matches Some(p) ==> i <= p.0 < records@.len() && closes_any_line(
                records@[p.0 as int],
            ) && p.1 == global_exit(records@[p.0 as int]) && (forall|m: int|
                i <= m < p.0 ==> !closes_any_line(records@[m])),
            restart is None ==> forall|m: int|
                i <= m < records@.len() ==> !closes_any_line(records@[m]),
            forall|k: int|
                0 <= k < deads@.len() ==> dead_entry_ok(records@, i as int, #[trigger] deads@[k]),
            forall|k1: int, k2: int|
                0 <= k1 < k2 < deads@.len() ==> (#[trigger] deads@[k1]).0@ != (
                #[trigger] deads@[k2]).0@,
            forall|m: int|
                i <= m < records@.len() && (#[trigger] records@[m]) is DeadProcess ==> exists|
                    k: int,
                |
                    0 <= k < deads@.len() && (#[trigger] deads@[k]).0@ == dead_line(records@[m]),
        decreases i,
    {
        i = i - 1;
        let ghost lo: int = i as int + 1;
        let rec = &records[i];
        match rec {
            LogRecord::UserProcess { user, host, line, time } => {
                let found = find_line(&deads, line);
                let found_dead: Option<(usize, i64)> = match found {
                    Some(k) => Some((deads[k].1, deads[k].2)),
                    None => None,
                };
                let exit = match (found_dead, restart) {
                    (None, None) => Exit::StillLoggedIn,
                    (Some((_jd, t)), None) => Exit::Logout(t),
                    (None, Some((_jr, e))) => e,
                    (Some((jd, t)), Some((jr, e))) => if jd < jr {
                        Exit::Logout(t)
                    } else {
                        e
                    },
                };
                proof {
                    let dead_g: Option<(int, i64)> = match found_dead {
                        Some(p) => Some((p.0 as int, p.1)),
                        None => None,
                    };
                    let glob_g: Option<(int, Exit)> = match restart {
                        Some(p) => Some((p.0 as int, p.1)),
                        None => None,
                    };
                    match found {
                        Some(k) => {
                            assert(dead_entry_ok(records@, lo, deads@[k as int]));
                        },
                        None => {
                            assert forall|m: int| lo <= m < records@.len() implies !is_dead_on(
                                records@[m],
                                line@,
                            ) by {
                                if records@[m] is DeadProcess && dead_line(records@[m]) == line@ {
                                    assert(exists|k: int|
                                        0 <= k < deads@.len() && (#[trigger] deads@[k]).0@
                                            == dead_line(records@[m]));
                                }
                            }
                        },
                    }
                    lemma_candidates_give_first_exit(records@, line@, lo, dead_g, glob_g);
                }
                let entry = Enter {
                    user: user.clone(),
                    host: host.clone(),
                    line: line.clone(),
                    login_time: *time,
                    exit,
                };
                proof {
                    lemma_enters_in_peel_oldest(records@, i as int, records@.len() as int);
                    assert(out@.push(entry) =~= enters_in(
                        records@,
                        i as int,
                        records@.len() as int,
                    ));
                    assert forall|k: int| 0 <= k < deads@.len() implies dead_entry_ok(
                        records@,
                        i as int,
                        #[trigger] deads@[k],
                    ) by {
                        assert(dead_entry_ok(records@, lo, deads@[k]));
                    }
                }
                out.push(entry);
            },
            LogRecord::DeadProcess { line, time } => {
                let ghost old_deads = deads@;
                let found = find_line(&deads, line);
                match found {
                    Some(k) => {
                        deads.remove(k);
                        proof {
                            old_deads.remove_ensures(k as int);
                        }
                    },
                    None => {},
                }
                let ghost mid = deads@;
                proof {
                    assert forall|k: int| 0 <= k < mid.len() implies (#[trigger] mid[k]).0@
                        != line@ && dead_entry_ok(records@, lo, mid[k]) by {
                        match found {
                            Some(r) => {
                                if k < r {
                                    assert(mid[k] == old_deads[k]);
                                } else {
                                    assert(mid[k] == old_deads[k + 1]);
                                }
                            },
                            None => {},
                        }
                    }
                }
                deads.push((line.clone(), i, *time));
                proof {
                    let e_new = deads@[deads@.len() - 1];
                    assert(records@[i as int] == (LogRecord::DeadProcess {
                        line: e_new.0,
                        time: e_new.2,
                    }));
                    assert(dead_entry_ok(records@, i as int, e_new));
                    assert forall|k: int| 0 <= k < deads@.len() implies dead_entry_ok(
                        records@,
                        i as int,
                        #[trigger] deads@[k],
                    ) by {
                        if k < deads@.len() - 1 {
                            assert(deads@[k] == mid[k]);
                            assert(dead_entry_ok(records@, lo, mid[k]));
                            assert(!is_dead_on(records@[i as int], mid[k].0@));
                        }
                    }
                    assert forall|m: int|
                        i <= m < records@.len() && (#[trigger] records@[m])
                            is DeadProcess implies exists|k: int|
                        0 <= k < deads@.len() && (#[trigger] deads@[k]).0@ == dead_line(
                            records@[m],
                        ) by {
                        if dead_line(records@[m]) == line@ {
                            assert(deads@[deads@.len() - 1].0@ == dead_line(records@[m]));
                        } else {
                            assert(m > i);
                            let k0 = choose|k: int|
                                0 <= k < old_deads.len() && (#[trigger] old_deads[k]).0@
                                    == dead_line(records@[m]);
                            match found {
                                Some(r) => {
                                    if k0 < r {
                                        assert(deads@[k0] == old_deads[k0]);
                                    } else {
                                        assert(old_deads[k0].0@ != line@);
                                        assert(k0 != r);
                                        assert(deads@[k0 - 1] == old_deads[k0]);
                                    }
                                },
                                None => {
                                    assert(deads@[k0] == old_deads[k0]);
                                },
                            }
                        }
                    }
                    lemma_enters_in_peel_oldest(records@, i as int, records@.len() as int);
                }
            },
            _ => {
                let glob = global_close(rec);
                if let Some(e) = glob {
                    restart = Some((i, e));
                }
                proof {
                    assert forall|k: int| 0 <= k < deads@.len() implies dead_entry_ok(
                        records@,
                        i as int,
                        #[trigger] deads@[k],
                    ) by {
                        assert(dead_entry_ok(records@, lo, deads@[k]));
                    }
                    lemma_enters_in_peel_oldest(records@, i as int, records@.len() as int);
                }
            },
        }
    }
    proof {
        assert(out@ =~= spec_reconstruct(records@));
    }
    out
}

} // verus!
