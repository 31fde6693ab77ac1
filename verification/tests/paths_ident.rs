use bay0::ident::check_room_id;
use bay0::paths::cgroup_kill_path;
use bay0::paths::cgroup_path;
use bay0::paths::cgroup_procs_path;
use bay0::paths::room_dir_path;
use bay0::paths::room_pid_file;
use bay0::paths::room_root_path;
use bay0::paths::room_runtime_path;
use bay0::vault::check_vault_target;

#[test]
fn room_paths_layout() {
    assert_eq!(room_dir_path("alpha"), "/run/rooms/alpha");
    assert_eq!(room_root_path("alpha"), "/run/rooms/alpha/root");
    assert_eq!(room_runtime_path("alpha"), "/run/rooms/alpha/run");
    assert_eq!(room_pid_file("alpha"), "/run/rooms/alpha/pid");
}

#[test]
fn cgroup_paths_layout() {
    assert_eq!(cgroup_path("alpha"), "/sys/fs/cgroup/anchor/alpha");
    assert_eq!(cgroup_procs_path("alpha"), "/sys/fs/cgroup/anchor/alpha/cgroup.procs");
    assert_eq!(cgroup_kill_path("alpha"), "/sys/fs/cgroup/anchor/alpha/cgroup.kill");
}

#[test]
fn valid_ids_accepted() {
    assert!(check_room_id("alpha"));
    assert!(check_room_id("room-7"));
    assert!(check_room_id("a.b.c"));
    assert!(check_room_id("x"));
}

#[test]
fn invalid_ids_rejected() {
    assert!(!check_room_id(""));
    assert!(!check_room_id("a b"));
    assert!(!check_room_id("a\tb"));
    assert!(!check_room_id("a/b"));
    assert!(!check_room_id("a..b"));
    assert!(!check_room_id(".."));
    assert!(!check_room_id("a\nb"));
}

#[test]
fn valid_vault_targets_accepted() {
    assert!(check_vault_target("/nix/store"));
    assert!(check_vault_target("/workspace"));
    assert!(check_vault_target("/"));
    assert!(check_vault_target("/a.b/c.d"));
    assert!(check_vault_target("/..hidden"));
    assert!(check_vault_target("/x../y"));
}

#[test]
fn invalid_vault_targets_rejected() {
    assert!(!check_vault_target(""));
    assert!(!check_vault_target("relative/path"));
    assert!(!check_vault_target("/nix/../etc"));
    assert!(!check_vault_target("/.."));
    assert!(!check_vault_target("/../x"));
    assert!(!check_vault_target("/a//b"));
    assert!(!check_vault_target("//"));
    assert!(!check_vault_target("/a/.."));
}
