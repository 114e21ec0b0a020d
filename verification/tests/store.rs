//! Tests for the fingerprint, the store operations, identity resolution,
//! training, detection and the alert suppression policy.

use edr::agent::{agent, AlertState, ALERT_THRESHOLD};
use edr::event::{RustBindEvent, RustEvent, RustExecEvent, RustOpenEvent};
use edr::identity::resolve_identity;
use edr::model::open_db_in_memory;
use edr::pipeline::{handle_event, Mode};
use edr::syscalls::{compute_argv_hash, insert_program, select_program_count};
use edr::train::train;
use sha2::Digest;

fn exec_event(pid: u32, filename: &str, args: &[&str]) -> RustEvent {
    RustEvent::Exec(RustExecEvent {
        pid,
        filename: filename.to_string(),
        args: args.iter().map(|a| a.to_string()).collect(),
    })
}

fn open_event(pid: u32, filename: &str) -> RustEvent {
    RustEvent::Open(RustOpenEvent { pid, filename: filename.to_string() })
}

fn bind_event(pid: u32, ip4: [u8; 4]) -> RustEvent {
    let mut ip = [0u8; 16];
    ip[0..4].copy_from_slice(&ip4);
    RustEvent::Bind(RustBindEvent { pid, ip })
}

fn table_count(conn: &rusqlite::Connection, table: &str) -> i64 {
    conn.query_row(&format!("SELECT COUNT(*) FROM {}", table), (), |row| row.get(0))
        .unwrap()
}

#[test]
fn fingerprint_of_empty_list_is_digest_of_empty_string() {
    let h = compute_argv_hash(&vec![]);
    assert_eq!(h, "e3b0c44298fc1c149afbf4c8996fb92427ae41e4649b934ca495991b7852b855");
}

#[test]
fn fingerprint_matches_joined_digest() {
    let h = compute_argv_hash(&vec!["a".to_string(), "b".to_string()]);
    let expected = hex::encode(sha2::Sha256::digest(b"a,b"));
    assert_eq!(h, expected);
}

#[test]
fn fingerprint_deterministic_and_order_sensitive() {
    let ab = vec!["a".to_string(), "b".to_string()];
    let h1 = compute_argv_hash(&ab);
    let h2 = compute_argv_hash(&ab);
    assert_eq!(h1, h2);
    let abc = compute_argv_hash(&vec!["a".to_string(), "b".to_string(), "c".to_string()]);
    let ba = compute_argv_hash(&vec!["b".to_string(), "a".to_string()]);
    assert_ne!(h1, abc);
    assert_ne!(h1, ba);
    assert_eq!(h1.len(), 64);
}

#[test]
fn identity_resolution_is_idempotent() {
    let mut conn = open_db_in_memory().unwrap();
    let first = resolve_identity(&mut conn, "/bin/ls").unwrap();
    let second = resolve_identity(&mut conn, "/bin/ls").unwrap();
    assert_eq!(first.id, second.id);
    assert_eq!(table_count(&conn, "programs"), 1);
    let other = resolve_identity(&mut conn, "/bin/cat").unwrap();
    assert_ne!(first.id, other.id);
    assert_eq!(table_count(&conn, "programs"), 2);
}

#[test]
fn training_counts_exactly() {
    let mut conn = open_db_in_memory().unwrap();
    let prog = resolve_identity(&mut conn, "/bin/ls").unwrap();
    let args = vec!["-l".to_string()];
    assert_eq!(
        select_program_count(&conn, &prog, "execve", "/bin/ls", &args).unwrap(),
        0
    );
    for expected in 1..=5u32 {
        let after = insert_program(&mut conn, &prog, "execve", "/bin/ls", &args).unwrap();
        assert_eq!(after, expected);
    }
    assert_eq!(
        select_program_count(&conn, &prog, "execve", "/bin/ls", &args).unwrap(),
        5
    );
    // A different fingerprint is a different behavior.
    assert_eq!(
        select_program_count(&conn, &prog, "execve", "/bin/ls", &vec![]).unwrap(),
        0
    );
}

#[test]
fn train_records_and_skips() {
    let mut conn = open_db_in_memory().unwrap();
    let ev = exec_event(100, "/bin/ls", &["-l"]);
    for _ in 0..3 {
        train(&mut conn, &ev, Some("/bin/ls")).unwrap();
    }
    assert_eq!(table_count(&conn, "programs"), 1);
    assert_eq!(table_count(&conn, "behaviors"), 1);
    let prog = resolve_identity(&mut conn, "/bin/ls").unwrap();
    let count =
        select_program_count(&conn, &prog, "execve", "/bin/ls", &vec!["-l".to_string()]).unwrap();
    assert_eq!(count, 3);
    // No resolved path: silently skipped.
    train(&mut conn, &ev, None).unwrap();
    assert_eq!(table_count(&conn, "behaviors"), 1);
}

#[test]
fn zero_address_events_touch_nothing() {
    let mut conn = open_db_in_memory().unwrap();
    let zero_bind = bind_event(5, [0, 0, 0, 0]);
    train(&mut conn, &zero_bind, Some("/bin/nc")).unwrap();
    assert_eq!(table_count(&conn, "programs"), 0);
    assert_eq!(table_count(&conn, "behaviors"), 0);
    let mut state = AlertState::new();
    let r = agent(&mut conn, &zero_bind, Some("/bin/nc"), &mut state).unwrap();
    assert!(r.is_none());
    assert_eq!(state.suspicious_event_count, 0);
    assert_eq!(table_count(&conn, "programs"), 0);
    // A real address is recorded.
    let real_bind = bind_event(5, [127, 0, 0, 1]);
    train(&mut conn, &real_bind, Some("/bin/nc")).unwrap();
    assert_eq!(table_count(&conn, "behaviors"), 1);
    let prog = resolve_identity(&mut conn, "/bin/nc").unwrap();
    assert_eq!(
        select_program_count(&conn, &prog, "bind", "127.0.0.1", &vec![]).unwrap(),
        1
    );
}

#[test]
fn known_behavior_raises_no_alert() {
    let mut conn = open_db_in_memory().unwrap();
    let ev = exec_event(100, "/bin/ls", &["-l"]);
    train(&mut conn, &ev, Some("/bin/ls")).unwrap();
    let mut state = AlertState::new();
    let r = agent(&mut conn, &ev, Some("/bin/ls"), &mut state).unwrap();
    assert!(r.is_none());
    assert_eq!(state.suspicious_event_count, 0);
}

#[test]
fn alert_suppression_boundary() {
    let mut conn = open_db_in_memory().unwrap();
    let mut state = AlertState::new();
    for n in 1..=12u32 {
        let ev = open_event(50, &format!("/etc/secret{}", n));
        let alert = agent(&mut conn, &ev, Some("/bin/cat"), &mut state).unwrap();
        assert_eq!(state.suspicious_event_count, n);
        if n < ALERT_THRESHOLD {
            assert!(alert.is_none(), "observation {} must be suppressed", n);
        } else {
            let a = alert.expect("observation at or past the threshold must alert");
            assert_eq!(a.pid, 50);
            assert_eq!(a.syscall, "open");
            assert_eq!(a.filename, format!("/etc/secret{}", n));
            assert!(a.args.is_empty());
            assert_eq!(a.suspicious_event_count, n);
        }
    }
}

#[test]
fn store_errors_are_reported_not_hidden() {
    let mut conn = open_db_in_memory().unwrap();
    let prog = resolve_identity(&mut conn, "/bin/ls").unwrap();
    conn.execute_batch("DROP TABLE behaviors;").unwrap();
    assert!(insert_program(&mut conn, &prog, "execve", "/bin/ls", &vec![]).is_err());
    assert!(select_program_count(&conn, &prog, "execve", "/bin/ls", &vec![]).is_err());
    let ev = exec_event(1, "/bin/ls", &[]);
    assert!(train(&mut conn, &ev, Some("/bin/ls")).is_err());
    let mut state = AlertState::new();
    assert!(agent(&mut conn, &ev, Some("/bin/ls"), &mut state).is_err());
    assert_eq!(state.suspicious_event_count, 0);
}

#[test]
fn end_to_end_train_then_detect() {
    let mut conn = open_db_in_memory().unwrap();
    let mut state = AlertState::new();
    let ls = exec_event(100, "/bin/ls", &["-l"]);

    // Train mode observes the exec three times.
    for _ in 0..3 {
        let r = handle_event(Mode::Train, &mut conn, &ls, Some("/bin/ls"), &mut state).unwrap();
        assert!(r.is_none());
    }
    let prog = resolve_identity(&mut conn, "/bin/ls").unwrap();
    assert_eq!(
        select_program_count(&conn, &prog, "execve", "/bin/ls", &vec!["-l".to_string()]).unwrap(),
        3
    );

    // Agent mode: the trained behavior is known, nothing happens.
    let r = handle_event(Mode::Agent, &mut conn, &ls, Some("/bin/ls"), &mut state).unwrap();
    assert!(r.is_none());
    assert_eq!(state.suspicious_event_count, 0);

    // An unseen behavior is unknown: the counter rises, the first alert is
    // still suppressed.
    let shadow = open_event(100, "/etc/shadow");
    let r = handle_event(Mode::Agent, &mut conn, &shadow, Some("/bin/ls"), &mut state).unwrap();
    assert!(r.is_none());
    assert_eq!(state.suspicious_event_count, 1);
    // Detection reads, never trains.
    assert_eq!(
        select_program_count(&conn, &prog, "open", "/etc/shadow", &vec![]).unwrap(),
        0
    );
}
