use bay0::control::ControlPlane;
use bay0::control::parse_command;
use bay0::control::Command;

#[test]
fn parse_spawn_two_args() {
    match parse_command("spawn alpha /tmp/bb.sqsh") {
        Command::Spawn { id, image, policy } => {
            assert_eq!(id, "alpha");
            assert_eq!(image, "/tmp/bb.sqsh");
            assert!(policy.is_none());
        },
        _ => panic!("expected spawn"),
    }
}

#[test]
fn parse_spawn_with_policy() {
    match parse_command("spawn alpha /tmp/bb.sqsh /etc/policy.txt") {
        Command::Spawn { id, image, policy } => {
            assert_eq!(id, "alpha");
            assert_eq!(image, "/tmp/bb.sqsh");
            assert_eq!(policy.as_deref(), Some("/etc/policy.txt"));
        },
        _ => panic!("expected spawn"),
    }
}

#[test]
fn parse_kill_and_list() {
    match parse_command("kill alpha") {
        Command::Kill { id } => assert_eq!(id, "alpha"),
        _ => panic!("expected kill"),
    }
    assert!(matches!(parse_command("list"), Command::List));
    assert!(matches!(parse_command("  list  "), Command::List));
}

#[test]
fn parse_unknown_commands() {
    assert!(matches!(parse_command("bogus"), Command::Unknown));
    assert!(matches!(parse_command("spawn alpha"), Command::Unknown));
    assert!(matches!(parse_command("spawn a b c d"), Command::Unknown));
    assert!(matches!(parse_command("kill"), Command::Unknown));
    assert!(matches!(parse_command("kill a b"), Command::Unknown));
    assert!(matches!(parse_command("list extra"), Command::Unknown));
    assert!(matches!(parse_command(""), Command::Unknown));
}

#[test]
fn whitespace_runs_split_tokens() {
    match parse_command("spawn\talpha   /tmp/bb.sqsh") {
        Command::Spawn { id, image, policy } => {
            assert_eq!(id, "alpha");
            assert_eq!(image, "/tmp/bb.sqsh");
            assert!(policy.is_none());
        },
        _ => panic!("expected spawn"),
    }
}

#[test]
fn fifo_lines_drain_in_order() {
    let mut cp = ControlPlane::from_fd(-1);
    cp.feed(b"spawn alpha /tmp/bb.sqsh\nlist\nkill alpha\n");
    let lines = cp.take_lines();
    assert_eq!(lines, vec!["spawn alpha /tmp/bb.sqsh", "list", "kill alpha"]);
    let again = cp.take_lines();
    assert!(again.is_empty());
}

#[test]
fn partial_line_stays_buffered() {
    let mut cp = ControlPlane::from_fd(-1);
    cp.feed(b"spawn al");
    assert!(cp.take_lines().is_empty());
    cp.feed(b"pha /tmp/bb.sqsh\nki");
    let lines = cp.take_lines();
    assert_eq!(lines, vec!["spawn alpha /tmp/bb.sqsh"]);
    cp.feed(b"ll alpha\n");
    let lines = cp.take_lines();
    assert_eq!(lines, vec!["kill alpha"]);
}

#[test]
fn empty_lines_skipped_and_trimmed() {
    let mut cp = ControlPlane::from_fd(-1);
    cp.feed(b"\n\n   \n  list \n\n");
    let lines = cp.take_lines();
    assert_eq!(lines, vec!["list"]);
}

#[test]
fn invalid_utf8_is_replaced_not_passed_through() {
    let mut cp = ControlPlane::from_fd(-1);
    cp.feed(b"li\xffst\n");
    let lines = cp.take_lines();
    assert_eq!(lines, vec!["li\u{FFFD}st"]);
}

#[test]
fn poll_on_idle_fifo_drains_buffer() {
    let mut cp = ControlPlane::from_fd(-1);
    cp.feed(b"list\n");
    let lines = cp.poll_control();
    assert_eq!(lines, vec!["list"]);
}
