use last_rs::get_logins;
use last_rs::reconstruct;
use last_rs::Enter;
use last_rs::Exit;
use last_rs::LastError;
use last_rs::LogRecord;

fn login(user: &str, line: &str, time: i64) -> LogRecord {
    LogRecord::UserProcess {
        user: user.to_string(),
        host: "host".to_string(),
        line: line.to_string(),
        time,
    }
}

fn dead(line: &str, time: i64) -> LogRecord {
    LogRecord::DeadProcess {
        line: line.to_string(),
        time,
    }
}

#[test]
fn logout_then_unrelated_login() {
    // Chronological log: a logs in on tty1, that session ends at t=10, and b
    // logs in on tty2 at t=5 with no exit record after it.
    let records = vec![
        login("a", "tty1", 0),
        dead("tty1", 10),
        login("b", "tty2", 5),
    ];
    let out = reconstruct(&records);
    assert_eq!(out.len(), 2);
    // Most recent login first.
    assert_eq!(out[0].user, "b");
    assert_eq!(out[0].exit, Exit::StillLoggedIn);
    assert_eq!(out[1].user, "a");
    assert_eq!(out[1].exit, Exit::Logout(10));
}

#[test]
fn boot_closes_every_open_login() {
    let records = vec![
        login("a", "tty1", 0),
        login("b", "tty2", 1),
        LogRecord::BootTime { time: 5 },
    ];
    let out = reconstruct(&records);
    assert_eq!(out.len(), 2);
    assert_eq!(out[0].user, "b");
    assert_eq!(out[0].exit, Exit::Crash(5));
    assert_eq!(out[1].user, "a");
    assert_eq!(out[1].exit, Exit::Crash(5));
}

#[test]
fn runlevel_six_is_reboot() {
    let records = vec![
        login("c", "tty1", 0),
        LogRecord::RunLevel {
            user: "runlevel".to_string(),
            pid: 0x36 << 16,
            time: 3,
        },
    ];
    let out = reconstruct(&records);
    assert_eq!(out.len(), 1);
    assert_eq!(out[0].user, "c");
    assert_eq!(out[0].exit, Exit::Reboot(3));
}

#[test]
fn empty_log_gives_empty_output() {
    let records: Vec<LogRecord> = vec![];
    let out = reconstruct(&records);
    assert!(out.is_empty());
    let from_source = get_logins(Ok(vec![]));
    assert_eq!(from_source, Ok(vec![]));
}

#[test]
fn reconstruction_is_idempotent() {
    let records = vec![
        login("a", "tty1", 0),
        dead("tty1", 4),
        login("b", "tty2", 5),
        LogRecord::ShutdownTime { time: 9 },
        login("a", "tty1", 12),
    ];
    let first = reconstruct(&records);
    let second = reconstruct(&records);
    assert_eq!(first, second);
}

#[test]
fn enter_copies_the_login_fields() {
    let records = vec![LogRecord::UserProcess {
        user: "root".to_string(),
        host: "example.org".to_string(),
        line: "pts/3".to_string(),
        time: 77,
    }];
    let out = reconstruct(&records);
    assert_eq!(
        out,
        vec![Enter {
            user: "root".to_string(),
            host: "example.org".to_string(),
            line: "pts/3".to_string(),
            login_time: 77,
            exit: Exit::StillLoggedIn,
        }]
    );
}

#[test]
fn most_recent_login_comes_first() {
    let records = vec![
        login("a", "tty1", 0),
        login("b", "tty2", 1),
        login("c", "tty3", 2),
    ];
    let out = reconstruct(&records);
    let users: Vec<&str> = out.iter().map(|e| e.user.as_str()).collect();
    assert_eq!(users, vec!["c", "b", "a"]);
}

#[test]
fn source_error_is_propagated_unchanged() {
    let err = LastError::UtmpParse("bad magic".to_string());
    let out = get_logins(Err(err.clone()));
    assert_eq!(out, Err(err));
}

#[test]
fn source_records_are_reconstructed() {
    let out = get_logins(Ok(vec![login("a", "tty1", 0), dead("tty1", 2)]));
    let entries = out.expect("a well-formed source must reconstruct");
    assert_eq!(entries.len(), 1);
    assert_eq!(entries[0].exit, Exit::Logout(2));
}

#[test]
fn parse_error_message_is_kept() {
    let err = LastError::UtmpParse("truncated record".to_string());
    assert_eq!(err.message(), "truncated record");
}
