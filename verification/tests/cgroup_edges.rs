use bay0::cgroup::cleanup_cgroup;
use bay0::cgroup::kill_cgroup_if_supported;
use bay0::cgroup::move_to_cgroup;
use bay0::errs::Bay0Error;

#[test]
fn destroying_an_absent_cgroup_is_success() {
    // The goal state - no such directory - already holds, and kill must
    // stay idempotent, so an absent cgroup is not an error.
    assert!(cleanup_cgroup("bay0_no_such_cgroup").is_ok());
}

#[test]
fn cgroup_kill_without_support_is_a_noop() {
    // No cgroup.kill pseudofile exists for this id: the call reports
    // success without touching anything.
    assert!(kill_cgroup_if_supported("bay0_no_such_cgroup").is_ok());
}

#[test]
fn attach_to_missing_cgroup_names_the_room() {
    match move_to_cgroup("bay0_no_such_cgroup", 2147483647) {
        Err(Bay0Error::CgroupFailure { cgroup, .. }) => {
            assert_eq!(cgroup, "bay0_no_such_cgroup");
        },
        Ok(()) => panic!("attaching to a missing cgroup cannot succeed"),
        Err(_) => panic!("a cgroup failure carries the cgroup variant"),
    }
}
