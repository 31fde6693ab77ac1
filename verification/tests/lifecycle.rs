use bay0::control::parse_command;
use bay0::control::Command;
use bay0::control::ControlPlane;
use bay0::errs::Bay0Error;
use bay0::room::kill_room;
use bay0::room::read_pid_file;
use bay0::room::spawn_precheck;
use bay0::room::RoomConfig;
use bay0::table::RoomHandle;
use bay0::table::RoomTable;
use bay0::vault::VaultMount;

fn plain_config(id: &str) -> RoomConfig {
    RoomConfig { id: id.to_string(), image_path: "/tmp/bb.sqsh".to_string(), vaults: Vec::new() }
}

#[test]
fn missing_pid_file_is_an_io_failure() {
    let r = read_pid_file("no_such_room_here");
    match r {
        Err(e @ Bay0Error::IoFailure { .. }) => assert_eq!(e.kind(), "io"),
        _ => panic!("a missing pid file is an io failure"),
    }
}

#[test]
fn error_kinds_name_their_variant() {
    let table = RoomTable::new();
    let e = spawn_precheck(&table, &plain_config("bad id")).unwrap_err();
    assert_eq!(e.kind(), "spawn");
}

#[test]
fn kill_of_unknown_room_succeeds_twice() {
    // Kill is idempotent and never errors on "already gone": both calls
    // succeed and leave nothing behind.
    assert!(kill_room("no_such_room_here").is_ok());
    assert!(kill_room("no_such_room_here").is_ok());
}

#[test]
fn spawn_list_kill_table_transitions() {
    // The spawn-list-kill exchange at the table level: the fork itself
    // needs a kernel with namespaces, so the spawned handle is recorded
    // directly once the precheck passes.
    let mut cp = ControlPlane::from_fd(-1);
    cp.feed(b"spawn alpha /tmp/bb.sqsh\nlist\nkill alpha\n");
    let lines = cp.take_lines();
    assert_eq!(lines.len(), 3);
    let mut table = RoomTable::new();
    assert_eq!(table.len(), 0);
    for line in &lines {
        match parse_command(line) {
            Command::Spawn { id, image, .. } => {
                let cfg = RoomConfig {
                    id: id.clone(),
                    image_path: image,
                    vaults: Vec::new(),
                };
                assert!(spawn_precheck(&table, &cfg).is_ok());
                table.insert(RoomHandle { id, pid: 2147483647 });
                assert_eq!(table.len(), 1);
                assert!(table.contains("alpha"));
            },
            Command::List => {
                assert_eq!(table.len(), 1);
                assert_eq!(table.at(0).id, "alpha");
                assert_eq!(table.at(0).pid, 2147483647);
            },
            Command::Kill { id } => {
                assert!(kill_room(&id).is_ok());
                table.remove(&id);
            },
            Command::Unknown => panic!("every line is a known command"),
        }
    }
    assert_eq!(table.len(), 0);
    assert!(!table.contains("alpha"));
}

#[test]
fn duplicate_spawn_rejected() {
    let mut table = RoomTable::new();
    table.insert(RoomHandle { id: "alpha".to_string(), pid: 4242 });
    let r = spawn_precheck(&table, &plain_config("alpha"));
    match r {
        Err(Bay0Error::RoomSpawnFailure { room, .. }) => assert_eq!(room, "alpha"),
        _ => panic!("a taken id must be rejected"),
    }
    assert!(spawn_precheck(&table, &plain_config("beta")).is_ok());
    assert_eq!(table.len(), 1);
}

#[test]
fn invalid_id_rejected_before_any_state() {
    let table = RoomTable::new();
    let r = spawn_precheck(&table, &plain_config("bad/../id"));
    assert!(matches!(r, Err(Bay0Error::RoomSpawnFailure { .. })));
}

#[test]
fn invalid_vault_target_rejected() {
    let table = RoomTable::new();
    let mut cfg = plain_config("gamma");
    cfg.vaults.push(VaultMount {
        source: "/vault/x".to_string(),
        target: "/nix/../etc".to_string(),
        readonly: true,
    });
    let r = spawn_precheck(&table, &cfg);
    assert!(matches!(r, Err(Bay0Error::RoomSpawnFailure { .. })));
}

#[test]
fn reaper_reports_only_real_children() {
    // The test process has no exited children: the reaper returns at once
    // with nothing, rather than blocking or inventing entries.
    let reaped = bay0::supervisor::reap_zombies();
    assert!(reaped.is_empty());
}
