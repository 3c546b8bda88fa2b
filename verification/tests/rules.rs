use last_rs::find_accompanying_logout;
use last_rs::reconstruct;
use last_rs::Exit;
use last_rs::LogRecord;

fn login(user: &str, line: &str, time: i64) -> LogRecord {
    LogRecord::UserProcess {
        user: user.to_string(),
        host: "host".to_string(),
        line: line.to_string(),
        time,
    }
}

fn dead(line: &str, time: i64) -> LogRecord {
    LogRecord::DeadProcess {
        line: line.to_string(),
        time,
    }
}

fn runlevel(user: &str, pid: u32, time: i64) -> LogRecord {
    LogRecord::RunLevel {
        user: user.to_string(),
        pid,
        time,
    }
}

fn single_exit(records: Vec<LogRecord>) -> Exit {
    let out = reconstruct(&records);
    assert_eq!(out.len(), 1);
    out.into_iter().next().unwrap().exit
}

#[test]
fn dead_process_on_another_line_is_no_match() {
    let exit = single_exit(vec![login("a", "tty1", 0), dead("tty2", 9)]);
    assert_eq!(exit, Exit::StillLoggedIn);
}

#[test]
fn shutdown_time_is_reboot() {
    let exit = single_exit(vec![login("a", "tty1", 0), LogRecord::ShutdownTime { time: 8 }]);
    assert_eq!(exit, Exit::Reboot(8));
}

#[test]
fn runlevel_shutdown_user_is_reboot() {
    let exit = single_exit(vec![login("a", "tty1", 0), runlevel("shutdown", 0, 6)]);
    assert_eq!(exit, Exit::Reboot(6));
}

#[test]
fn runlevel_zero_is_reboot() {
    let exit = single_exit(vec![login("a", "tty1", 0), runlevel("runlevel", 0x30 << 16, 4)]);
    assert_eq!(exit, Exit::Reboot(4));
}

#[test]
fn runlevel_other_digit_is_no_match() {
    // A runlevel byte outside the shutdown/reboot pair, e.g. multi-user
    // runlevel '5', must fall through without closing the session.
    let exit = single_exit(vec![login("a", "tty1", 0), runlevel("runlevel", 0x35 << 16, 4)]);
    assert_eq!(exit, Exit::StillLoggedIn);
}

#[test]
fn runlevel_byte_outside_ascii_digits_is_no_match() {
    let exit = single_exit(vec![login("a", "tty1", 0), runlevel("runlevel", 0xff << 16, 4)]);
    assert_eq!(exit, Exit::StillLoggedIn);
}

#[test]
fn runlevel_digit_in_low_byte_is_no_match() {
    // The convention reads the second-most-significant byte, not the lowest.
    let exit = single_exit(vec![login("a", "tty1", 0), runlevel("runlevel", 0x36, 4)]);
    assert_eq!(exit, Exit::StillLoggedIn);
}

#[test]
fn runlevel_of_other_user_is_no_match() {
    let exit = single_exit(vec![login("a", "tty1", 0), runlevel("operator", 0x36 << 16, 4)]);
    assert_eq!(exit, Exit::StillLoggedIn);
}

#[test]
fn unrecognized_records_are_skipped() {
    let exit = single_exit(vec![login("a", "tty1", 0), LogRecord::Other, LogRecord::Other]);
    assert_eq!(exit, Exit::StillLoggedIn);
}

#[test]
fn first_qualifying_record_wins_over_later_logout() {
    // The boot marker stands between the login and the dead-process record,
    // so the session ends in a crash, never in the later logout.
    let exit = single_exit(vec![
        login("a", "tty1", 0),
        LogRecord::BootTime { time: 5 },
        dead("tty1", 10),
    ]);
    assert_eq!(exit, Exit::Crash(5));
}

#[test]
fn nearest_logout_wins_over_later_boot() {
    let exit = single_exit(vec![
        login("a", "tty1", 0),
        dead("tty1", 3),
        LogRecord::BootTime { time: 5 },
    ]);
    assert_eq!(exit, Exit::Logout(3));
}

#[test]
fn records_before_the_login_are_ignored() {
    let exit = single_exit(vec![dead("tty1", 0), login("a", "tty1", 5)]);
    assert_eq!(exit, Exit::StillLoggedIn);
}

#[test]
fn same_line_logins_share_the_dead_process() {
    // Both logins sit on tty1 and both scans first reach the dead-process
    // record at t=5, so both sessions resolve to the same logout.
    let records = vec![
        login("a", "tty1", 0),
        login("b", "tty1", 1),
        dead("tty1", 5),
    ];
    let out = reconstruct(&records);
    assert_eq!(out.len(), 2);
    assert_eq!(out[0].user, "b");
    assert_eq!(out[0].exit, Exit::Logout(5));
    assert_eq!(out[1].user, "a");
    assert_eq!(out[1].exit, Exit::Logout(5));
}

#[test]
fn runlevel_shutdown_closes_every_line() {
    let records = vec![
        login("a", "tty1", 0),
        login("b", "tty2", 1),
        runlevel("shutdown", 0, 7),
    ];
    let out = reconstruct(&records);
    assert_eq!(out.len(), 2);
    assert_eq!(out[0].exit, Exit::Reboot(7));
    assert_eq!(out[1].exit, Exit::Reboot(7));
}

#[test]
fn extreme_timestamps_are_carried_through() {
    let records = vec![login("a", "tty1", i64::MIN), dead("tty1", i64::MAX)];
    let out = reconstruct(&records);
    assert_eq!(out.len(), 1);
    assert_eq!(out[0].login_time, i64::MIN);
    assert_eq!(out[0].exit, Exit::Logout(i64::MAX));
}

#[test]
fn scan_finds_first_match_from_its_start() {
    let records = vec![
        login("a", "tty1", 0),
        dead("tty2", 2),
        dead("tty1", 3),
        dead("tty1", 9),
    ];
    let found = find_accompanying_logout(&records, 1, &"tty1".to_string());
    assert_eq!(found, Some(Exit::Logout(3)));
    let none = find_accompanying_logout(&records, 4, &"tty1".to_string());
    assert_eq!(none, None);
}
