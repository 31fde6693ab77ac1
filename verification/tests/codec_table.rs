use bay0::pidtext::format_pid;
use bay0::pidtext::parse_pid;
use bay0::table::RoomHandle;
use bay0::table::RoomTable;

#[test]
fn format_pid_exact() {
    assert_eq!(format_pid(0), vec![b'0']);
    assert_eq!(format_pid(7), vec![b'7']);
    assert_eq!(format_pid(1234), vec![b'1', b'2', b'3', b'4']);
    assert_eq!(format_pid(2147483647), b"2147483647".to_vec());
}

#[test]
fn parse_pid_exact() {
    assert_eq!(parse_pid(b"1234"), Some(1234));
    assert_eq!(parse_pid(b" 1234\n"), Some(1234));
    assert_eq!(parse_pid(b"0"), Some(0));
    assert_eq!(parse_pid(b"2147483647"), Some(2147483647));
}

#[test]
fn parse_pid_rejects() {
    assert_eq!(parse_pid(b""), None);
    assert_eq!(parse_pid(b"   "), None);
    assert_eq!(parse_pid(b"12a4"), None);
    assert_eq!(parse_pid(b"-5"), None);
    assert_eq!(parse_pid(b"2147483648"), None);
    assert_eq!(parse_pid(b"99999999999999999999"), None);
    assert_eq!(parse_pid(b"12 34"), None);
}

#[test]
fn pid_round_trip() {
    for pid in [0, 1, 9, 10, 4242, 65535, 2147483647] {
        let text = format_pid(pid);
        assert_eq!(parse_pid(&text), Some(pid));
    }
}

#[test]
fn table_insert_lookup_remove() {
    let mut t = RoomTable::new();
    assert_eq!(t.len(), 0);
    assert!(!t.contains("alpha"));
    t.insert(RoomHandle { id: "alpha".to_string(), pid: 4242 });
    assert_eq!(t.len(), 1);
    assert!(t.contains("alpha"));
    assert_eq!(t.pid_of("alpha"), Some(4242));
    assert_eq!(t.pid_of("beta"), None);
    t.insert(RoomHandle { id: "beta".to_string(), pid: 77 });
    assert_eq!(t.len(), 2);
    let h = t.at(0);
    assert!(h.id == "alpha" || h.id == "beta");
    t.remove("alpha");
    assert_eq!(t.len(), 1);
    assert!(!t.contains("alpha"));
    assert!(t.contains("beta"));
}

#[test]
fn table_remove_is_idempotent() {
    let mut t = RoomTable::new();
    t.insert(RoomHandle { id: "alpha".to_string(), pid: 1 });
    t.remove("alpha");
    assert_eq!(t.len(), 0);
    t.remove("alpha");
    assert_eq!(t.len(), 0);
    t.remove("never-there");
    assert_eq!(t.len(), 0);
}

#[test]
fn table_spawn_then_kill_restores() {
    let mut t = RoomTable::new();
    t.insert(RoomHandle { id: "keep".to_string(), pid: 9 });
    t.insert(RoomHandle { id: "alpha".to_string(), pid: 10 });
    t.remove("alpha");
    assert_eq!(t.len(), 1);
    assert!(t.contains("keep"));
    assert_eq!(t.pid_of("keep"), Some(9));
}
