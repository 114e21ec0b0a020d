//! Tests for the record decoder, the encoder round trip and the small
//! formatting helpers.

use edr::event::{
    encode_event, extract_event, format_ip, is_zero_ip, rustify_bind_event, rustify_connect_event,
    rustify_exec_event, rustify_open_event, BindEvent, ConnectEvent, DecodeError, EventType,
    ExecEvent, OpenEvent, RustBindEvent, RustConnectEvent, RustEvent, RustExecEvent, RustOpenEvent,
    EXEC_RECORD_LEN, OPEN_RECORD_LEN, SOCK_RECORD_LEN,
};

fn put_str(buf: &mut [u8], s: &str) {
    let bytes = s.as_bytes();
    buf[..bytes.len()].copy_from_slice(bytes);
}

fn mk_exec_record(pid: u32, filename: &str, args: &[&str]) -> Vec<u8> {
    let mut raw = vec![0u8; EXEC_RECORD_LEN];
    raw[0..4].copy_from_slice(&1u32.to_le_bytes());
    raw[4..8].copy_from_slice(&pid.to_le_bytes());
    put_str(&mut raw[8..264], filename);
    for (i, a) in args.iter().enumerate() {
        put_str(&mut raw[264 + 96 * i..264 + 96 * (i + 1)], a);
    }
    raw[1800..1804].copy_from_slice(&(args.len() as u32).to_le_bytes());
    raw
}

fn mk_open_record(pid: u32, filename: &str) -> Vec<u8> {
    let mut raw = vec![0u8; OPEN_RECORD_LEN];
    raw[0..4].copy_from_slice(&2u32.to_le_bytes());
    raw[4..8].copy_from_slice(&pid.to_le_bytes());
    put_str(&mut raw[8..264], filename);
    raw
}

fn mk_sock_record(tag: u32, pid: u32, ip: [u8; 4]) -> Vec<u8> {
    let mut raw = vec![0u8; SOCK_RECORD_LEN];
    raw[0..4].copy_from_slice(&tag.to_le_bytes());
    raw[4..8].copy_from_slice(&pid.to_le_bytes());
    raw[8..12].copy_from_slice(&ip);
    raw
}

#[test]
fn decode_exec() {
    let raw = mk_exec_record(100, "/bin/ls", &["-l", "/tmp"]);
    match extract_event(&raw).unwrap() {
        RustEvent::Exec(e) => {
            assert_eq!(e.pid, 100);
            assert_eq!(e.filename, "/bin/ls");
            assert_eq!(e.args, vec!["-l".to_string(), "/tmp".to_string()]);
        }
        other => panic!("wrong kind: {:?}", other),
    }
}

#[test]
fn decode_open() {
    let raw = mk_open_record(7, "/etc/passwd");
    match extract_event(&raw).unwrap() {
        RustEvent::Open(e) => {
            assert_eq!(e.pid, 7);
            assert_eq!(e.filename, "/etc/passwd");
        }
        other => panic!("wrong kind: {:?}", other),
    }
}

#[test]
fn decode_bind_and_connect() {
    let raw = mk_sock_record(3, 42, [127, 0, 0, 1]);
    match extract_event(&raw).unwrap() {
        RustEvent::Bind(e) => {
            assert_eq!(e.pid, 42);
            assert_eq!(&e.ip[0..4], &[127, 0, 0, 1]);
        }
        other => panic!("wrong kind: {:?}", other),
    }
    let raw = mk_sock_record(4, 43, [10, 0, 0, 2]);
    match extract_event(&raw).unwrap() {
        RustEvent::Connect(e) => {
            assert_eq!(e.pid, 43);
            assert_eq!(&e.ip[0..4], &[10, 0, 0, 2]);
        }
        other => panic!("wrong kind: {:?}", other),
    }
}

#[test]
fn decode_too_short() {
    assert_eq!(extract_event(&[]).unwrap_err(), DecodeError::TooShort);
    assert_eq!(extract_event(&[1]).unwrap_err(), DecodeError::TooShort);
    assert_eq!(
        extract_event(&[1, 0, 0, 0, 5, 0, 0]).unwrap_err(),
        DecodeError::TooShort
    );
}

#[test]
fn decode_unknown_kind() {
    let mut raw = vec![0u8; 16];
    raw[0..4].copy_from_slice(&9u32.to_le_bytes());
    assert_eq!(extract_event(&raw).unwrap_err(), DecodeError::UnknownKind);
    let mut raw = vec![0u8; 16];
    raw[0..4].copy_from_slice(&0u32.to_le_bytes());
    assert_eq!(extract_event(&raw).unwrap_err(), DecodeError::UnknownKind);
}

#[test]
fn decode_too_short_for_kind() {
    for (tag, size) in [(1u32, EXEC_RECORD_LEN), (2, OPEN_RECORD_LEN), (3, SOCK_RECORD_LEN), (4, SOCK_RECORD_LEN)] {
        let mut raw = vec![0u8; size - 1];
        raw[0..4].copy_from_slice(&tag.to_le_bytes());
        assert_eq!(
            extract_event(&raw).unwrap_err(),
            DecodeError::TooShortForKind,
            "tag {}",
            tag
        );
    }
}

#[test]
fn decode_invalid_utf8_becomes_empty() {
    let mut raw = mk_open_record(1, "");
    raw[8] = 0xff;
    raw[9] = 0xfe;
    match extract_event(&raw).unwrap() {
        RustEvent::Open(e) => assert_eq!(e.filename, ""),
        other => panic!("wrong kind: {:?}", other),
    }
}

#[test]
fn decode_keeps_multibyte_utf8() {
    let raw = mk_open_record(1, "/tmp/héllo");
    match extract_event(&raw).unwrap() {
        RustEvent::Open(e) => assert_eq!(e.filename, "/tmp/héllo"),
        other => panic!("wrong kind: {:?}", other),
    }
}

#[test]
fn decode_clamps_argument_count() {
    let mut raw = mk_exec_record(5, "/bin/x", &["a"]);
    raw[1800..1804].copy_from_slice(&999u32.to_le_bytes());
    match extract_event(&raw).unwrap() {
        RustEvent::Exec(e) => assert_eq!(e.args.len(), 16),
        other => panic!("wrong kind: {:?}", other),
    }
}

fn assert_round_trip(ev: RustEvent) {
    let bytes = encode_event(&ev).expect("encodable");
    let back = extract_event(&bytes).expect("decodes");
    match (&ev, &back) {
        (RustEvent::Exec(a), RustEvent::Exec(b)) => {
            assert_eq!(a.pid, b.pid);
            assert_eq!(a.filename, b.filename);
            assert_eq!(a.args, b.args);
        }
        (RustEvent::Open(a), RustEvent::Open(b)) => {
            assert_eq!(a.pid, b.pid);
            assert_eq!(a.filename, b.filename);
        }
        (RustEvent::Bind(a), RustEvent::Bind(b)) => {
            assert_eq!(a.pid, b.pid);
            assert_eq!(a.ip, b.ip);
        }
        (RustEvent::Connect(a), RustEvent::Connect(b)) => {
            assert_eq!(a.pid, b.pid);
            assert_eq!(a.ip, b.ip);
        }
        _ => panic!("kind changed in round trip"),
    }
}

#[test]
fn encode_decode_round_trip() {
    assert_round_trip(RustEvent::Exec(RustExecEvent {
        pid: 100,
        filename: "/bin/ls".to_string(),
        args: vec!["-l".to_string(), "--color=auto".to_string()],
    }));
    assert_round_trip(RustEvent::Exec(RustExecEvent {
        pid: 0,
        filename: "".to_string(),
        args: vec![],
    }));
    assert_round_trip(RustEvent::Open(RustOpenEvent {
        pid: 9,
        filename: "/etc/shadow".to_string(),
    }));
    let mut ip = [0u8; 16];
    ip[0..4].copy_from_slice(&[192, 168, 1, 10]);
    assert_round_trip(RustEvent::Bind(RustBindEvent { pid: 3, ip }));
    assert_round_trip(RustEvent::Connect(RustConnectEvent { pid: 4, ip }));
}

#[test]
fn round_trip_at_the_size_limits() {
    // Largest record a producer can emit: a full filename buffer (no
    // terminator), all 16 argument slots in use, one of them full-width.
    let filename = "f".repeat(256);
    let mut args: Vec<String> = (0..15).map(|i| format!("arg{}", i)).collect();
    args.push("a".repeat(96));
    let ev = RustEvent::Exec(RustExecEvent { pid: u32::MAX, filename, args });
    let bytes = encode_event(&ev).expect("encodable");
    assert_eq!(bytes.len(), EXEC_RECORD_LEN);
    match (ev, extract_event(&bytes).unwrap()) {
        (RustEvent::Exec(a), RustEvent::Exec(b)) => {
            assert_eq!(a.pid, b.pid);
            assert_eq!(a.filename, b.filename);
            assert_eq!(a.args, b.args);
        }
        _ => panic!("kind changed in round trip"),
    }
}

#[test]
fn encode_rejects_unfit_fields() {
    let long = "x".repeat(257);
    assert!(encode_event(&RustEvent::Open(RustOpenEvent { pid: 1, filename: long })).is_none());
    let nul = "a\0b".to_string();
    assert!(encode_event(&RustEvent::Open(RustOpenEvent { pid: 1, filename: nul })).is_none());
    let many = vec!["a".to_string(); 17];
    assert!(encode_event(&RustEvent::Exec(RustExecEvent {
        pid: 1,
        filename: "/bin/x".to_string(),
        args: many,
    }))
    .is_none());
    let wide = "y".repeat(97);
    assert!(encode_event(&RustEvent::Exec(RustExecEvent {
        pid: 1,
        filename: "/bin/x".to_string(),
        args: vec![wide],
    }))
    .is_none());
}

#[test]
fn rustify_exec() {
    let mut filename = [0u8; 256];
    put_str(&mut filename, "/usr/bin/env");
    let mut args = [[0u8; 96]; 16];
    put_str(&mut args[0], "FOO=1");
    put_str(&mut args[1], "bar");
    let ev = ExecEvent { _type: EventType::Exec, pid: 11, filename, args, argc: 2 };
    let r = rustify_exec_event(&ev);
    assert_eq!(r.pid, 11);
    assert_eq!(r.filename, "/usr/bin/env");
    assert_eq!(r.args, vec!["FOO=1".to_string(), "bar".to_string()]);
}

#[test]
fn rustify_open() {
    let mut filename = [0u8; 256];
    put_str(&mut filename, "/var/log/syslog");
    let ev = OpenEvent { _type: EventType::Open, pid: 12, filename };
    let r = rustify_open_event(&ev);
    assert_eq!(r.pid, 12);
    assert_eq!(r.filename, "/var/log/syslog");
}

#[test]
fn rustify_bind_and_connect() {
    let mut ip = [0u8; 16];
    ip[0..4].copy_from_slice(&[8, 8, 8, 8]);
    let b = rustify_bind_event(&BindEvent { _type: EventType::Bind, pid: 13, ip });
    assert_eq!(b.pid, 13);
    assert_eq!(b.ip, ip);
    let c = rustify_connect_event(&ConnectEvent { _type: EventType::Connect, pid: 14, ip });
    assert_eq!(c.pid, 14);
    assert_eq!(c.ip, ip);
}

#[test]
fn format_ip_dotted_decimal() {
    let mut ip = [0u8; 16];
    ip[0..4].copy_from_slice(&[192, 168, 0, 1]);
    assert_eq!(format_ip(&ip), "192.168.0.1");
    let mut ip = [0u8; 16];
    ip[0..4].copy_from_slice(&[255, 255, 255, 255]);
    assert_eq!(format_ip(&ip), "255.255.255.255");
    let ip = [0u8; 16];
    assert_eq!(format_ip(&ip), "0.0.0.0");
    let mut ip = [0u8; 16];
    ip[0..4].copy_from_slice(&[10, 99, 100, 205]);
    assert_eq!(format_ip(&ip), "10.99.100.205");
}

#[test]
fn zero_ip_check() {
    let ip = [0u8; 16];
    assert!(is_zero_ip(&ip));
    let mut ip = [0u8; 16];
    ip[3] = 1;
    assert!(!is_zero_ip(&ip));
    // Only the first four bytes matter.
    let mut ip = [0u8; 16];
    ip[5] = 9;
    assert!(is_zero_ip(&ip));
}
