use bay0::errs::Bay0Error;
use bay0::mounts::mount_points;
use bay0::mounts::unmount_plan;
use bay0::policy::parse_policy;
use bay0::room::child_init_plan;
use bay0::room::InitStep;
use bay0::room::RoomConfig;
use bay0::vault::VaultMount;

fn two_vault_policy() -> &'static str {
    "[[vaults]]\n\
     source   = \"/vault/nix/store\"\n\
     target   = \"/nix/store\"\n\
     readonly = true\n\
     \n\
     [[vaults]]\n\
     source   = \"/vault/workspace\"\n\
     target   = \"/workspace\"\n\
     readonly = false\n"
}

#[test]
fn policy_example_parses() {
    let vaults = parse_policy(two_vault_policy()).expect("well-formed policy");
    assert_eq!(vaults.len(), 2);
    assert_eq!(vaults[0].source, "/vault/nix/store");
    assert_eq!(vaults[0].target, "/nix/store");
    assert!(vaults[0].readonly);
    assert_eq!(vaults[1].source, "/vault/workspace");
    assert_eq!(vaults[1].target, "/workspace");
    assert!(!vaults[1].readonly);
}

#[test]
fn policy_readonly_defaults_to_true() {
    let vaults = parse_policy("[[vaults]]\nsource = /vault/ro\ntarget = /data\n")
        .expect("well-formed policy");
    assert_eq!(vaults.len(), 1);
    assert!(vaults[0].readonly);
    assert_eq!(vaults[0].source, "/vault/ro");
    assert_eq!(vaults[0].target, "/data");
}

#[test]
fn policy_invalid_target_rejected() {
    let r = parse_policy("[[vaults]]\nsource = \"/vault/x\"\ntarget = \"/nix/../etc\"\n");
    assert!(matches!(r, Err(Bay0Error::PolicyParseFailure { .. })));
}

#[test]
fn policy_malformed_rejected() {
    // assignment outside any section
    assert!(parse_policy("source = /x\n").is_err());
    // unknown key
    assert!(parse_policy("[[vaults]]\nsource = /x\ntarget = /y\ncolor = red\n").is_err());
    // not a key = value line
    assert!(parse_policy("[[vaults]]\nsource /x\n").is_err());
    // bad readonly value
    assert!(parse_policy("[[vaults]]\nsource = /x\ntarget = /y\nreadonly = maybe\n").is_err());
    // entry without a target
    assert!(parse_policy("[[vaults]]\nsource = /x\n").is_err());
    // entry without a source
    assert!(parse_policy("[[vaults]]\ntarget = /y\n").is_err());
}

#[test]
fn policy_empty_document_has_no_vaults() {
    let vaults = parse_policy("").expect("empty policy");
    assert!(vaults.is_empty());
}

fn config_with_vaults() -> RoomConfig {
    RoomConfig {
        id: "alpha".to_string(),
        image_path: "/tmp/bb.sqsh".to_string(),
        vaults: vec![
            VaultMount {
                source: "/vault/ro".to_string(),
                target: "/data".to_string(),
                readonly: true,
            },
            VaultMount {
                source: "/vault/rw".to_string(),
                target: "/workspace".to_string(),
                readonly: false,
            },
        ],
    }
}

#[test]
fn plan_arms_parent_death_first() {
    let plan = child_init_plan(&config_with_vaults());
    assert!(matches!(plan[0], InitStep::SetParentDeathKill));
}

#[test]
fn plan_pivots_before_everything_in_room() {
    let plan = child_init_plan(&config_with_vaults());
    match &plan[2] {
        InitStep::MountImage { source, target } => {
            assert_eq!(source, "/tmp/bb.sqsh");
            assert_eq!(target, "/run/rooms/alpha/root");
        },
        _ => panic!("expected the image mount"),
    }
    match &plan[4] {
        InitStep::PivotRoot { new_root, put_old } => {
            assert_eq!(new_root, "/run/rooms/alpha/root");
            assert_eq!(put_old, "/run/rooms/alpha/root/.oldroot");
        },
        _ => panic!("expected the pivot"),
    }
    assert!(matches!(&plan[6], InitStep::DetachOldRoot { .. }));
    assert!(matches!(&plan[7], InitStep::RemoveOldRootDir { .. }));
    // nothing mounts into the room or execs before the pivot is done
    for step in &plan[..8] {
        assert!(!matches!(step, InitStep::BindVault { .. }));
        assert!(!matches!(step, InitStep::ExecInit { .. }));
    }
}

#[test]
fn plan_readonly_vault_is_two_step() {
    let plan = child_init_plan(&config_with_vaults());
    let bind_at = plan
        .iter()
        .position(|s| matches!(s, InitStep::BindVault { target, .. } if target == "/data"))
        .expect("the read-only vault is bound");
    match &plan[bind_at + 1] {
        InitStep::RemountReadonly { target } => assert_eq!(target, "/data"),
        _ => panic!("a read-only bind must be followed by its remount"),
    }
    // the writable vault is bound but never remounted read-only
    assert!(plan.iter().any(
        |s| matches!(s, InitStep::BindVault { target, .. } if target == "/workspace"),
    ));
    assert!(!plan.iter().any(
        |s| matches!(s, InitStep::RemountReadonly { target } if target == "/workspace"),
    ));
}

#[test]
fn plan_drops_capabilities_before_exec() {
    let plan = child_init_plan(&config_with_vaults());
    let n = plan.len();
    // 12 fixed steps, 3 vault steps (bind+remount, bind), 3 closing steps
    assert_eq!(n, 18);
    assert!(matches!(plan[n - 3], InitStep::DropBoundingCaps { last: 63 }));
    assert!(matches!(plan[n - 2], InitStep::SetNoNewPrivs));
    match &plan[n - 1] {
        InitStep::ExecInit { first, fallback } => {
            assert_eq!(first, "/init");
            assert_eq!(fallback, "/bin/sh");
        },
        _ => panic!("the plan must end with exec"),
    }
}

#[test]
fn mount_points_takes_second_field() {
    let text = "proc /proc proc rw 0 0\n\
                tmpfs /run tmpfs rw 0 0\n\
                short\n\
                /dev/sda1 /boot ext4 ro 0 0\n";
    let points = mount_points(text);
    assert_eq!(points, vec!["/proc", "/run", "/boot"]);
}

#[test]
fn unmount_plan_is_deepest_first() {
    let mounts = vec![
        "/run/rooms/alpha/root".to_string(),
        "/other/place".to_string(),
        "/run/rooms/alpha/root/proc".to_string(),
        "/run/rooms/alpha/root/run".to_string(),
        "/run/rooms/alphaother".to_string(),
        "/run/rooms/alpha/root/nix/store".to_string(),
    ];
    let plan = unmount_plan(&mounts, "/run/rooms/alpha/root");
    assert_eq!(plan.len(), 4);
    assert_eq!(plan[0], "/run/rooms/alpha/root/nix/store");
    assert!(plan[1] == "/run/rooms/alpha/root/proc" || plan[1] == "/run/rooms/alpha/root/run");
    assert!(plan[2] == "/run/rooms/alpha/root/proc" || plan[2] == "/run/rooms/alpha/root/run");
    assert_ne!(plan[1], plan[2]);
    assert_eq!(plan[3], "/run/rooms/alpha/root");
}
