use spur::cgroup::{
    configure_cpuset, configure_job, current_unified_cgroup, discover, enable_controllers,
    oom_killed, processes_to_kill, select_layout, setup_job_failed, Control, GroupPath, Hierarchy,
    JobCgroup, Layout,
};

fn value<'a>(controls: &'a [Control], name: &str) -> Option<&'a str> {
    controls
        .iter()
        .find(|control| control.name == name)
        .map(|control| control.value.as_str())
}

#[test]
fn parses_unified_membership() {
    assert_eq!(
        current_unified_cgroup("5:cpu:/legacy\n0::/system.slice/spurd.service/spurd\n").unwrap(),
        "/system.slice/spurd.service/spurd"
    );
}

#[test]
fn systemd_subgroup_uses_unit_as_delegated_root() {
    let mount = GroupPath::parse("/sys/fs/cgroup");
    let current = mount.join("system.slice").join("spurd.service").join("spurd");

    match select_layout(&mount, &current, &mount.join("spur"), false).unwrap() {
        Layout::SystemdDelegated { root } => {
            assert_eq!(root.text(), "/sys/fs/cgroup/system.slice/spurd.service");
        }
        other => panic!("unexpected: {other:?}"),
    }
}

#[test]
fn unprivileged_agent_moves_to_daemon_leaf() {
    let mount = GroupPath::parse("/sys/fs/cgroup");
    let current = mount.join("system.slice").join("spurd.service");

    match select_layout(&mount, &current, &mount.join("spur"), false).unwrap() {
        Layout::SelfDelegated { root, daemon } => {
            assert_eq!(root.text(), current.text());
            assert_eq!(daemon.text(), current.join("spurd").text());
        }
        other => panic!("unexpected: {other:?}"),
    }
}

#[test]
fn configures_enforced_limits_and_cpuset_domain() {
    let root = GroupPath::parse("/sys/fs/cgroup/spur");
    let plan = configure_job(32, 4096);
    assert!(plan.defect.is_none());
    assert_eq!(value(&plan.controls, "cpu.max"), Some("3200000 100000"));
    assert_eq!(value(&plan.controls, "memory.max"), Some("4294967296"));
    assert_eq!(value(&plan.controls, "memory.oom.group"), Some("1"));
    assert_eq!(value(&plan.controls, "pids.max"), Some("8192"));

    let cpuset = configure_cpuset(&vec![2, 4, 6, 8], "0-3\n", &root).unwrap();
    assert_eq!(value(&cpuset, "cpuset.mems"), Some("0-3"));
    assert_eq!(value(&cpuset, "cpuset.cpus"), Some("2,4,6,8"));
}

#[test]
fn requires_all_delegated_controllers() {
    let root = GroupPath::parse("/tmp/delegated");
    let error = enable_controllers(&root, "cpu memory pids\n").unwrap_err();
    assert!(error.contains("cpuset"));
}

#[test]
fn delegated_controllers_are_enabled_together() {
    let root = GroupPath::parse("/tmp/delegated");
    let line = enable_controllers(&root, "cpuset cpu io memory pids\n").unwrap();
    for name in ["+cpu", "+cpuset", "+memory", "+pids"] {
        assert!(line.split(' ').any(|word| word == name), "{line}");
    }
    assert!(!line.contains("io"));
}

#[test]
fn membership_is_read_from_the_unified_line() {
    assert!(current_unified_cgroup("5:cpu:/legacy\n").is_err());
    match discover("0::/\n", true).unwrap() {
        Layout::RootFallback { root } => assert_eq!(root.text(), "/sys/fs/cgroup/spur"),
        other => panic!("unexpected: {other:?}"),
    }
    match discover("0::/agents/a\n", false).unwrap() {
        Layout::SelfDelegated { root, daemon } => {
            assert_eq!(root.text(), "/sys/fs/cgroup/agents/a");
            assert_eq!(daemon.text(), "/sys/fs/cgroup/agents/a/spurd");
        }
        other => panic!("unexpected: {other:?}"),
    }
}

#[test]
fn layouts_outside_the_mount_are_refused() {
    let mount = GroupPath::parse("/sys/fs/cgroup");
    let elsewhere = GroupPath::parse("/elsewhere/agent");
    assert!(select_layout(&mount, &elsewhere, &mount.join("spur"), false).is_err());
}

#[test]
fn unusable_limits_are_defects() {
    assert!(configure_job(1, u64::MAX).defect.is_some());
    assert!(configure_job(0, 0).defect.is_some());
    let unlimited = configure_job(1, 0);
    assert!(unlimited.defect.is_none());
    assert_eq!(value(&unlimited.controls, "memory.max"), None);
    assert_eq!(value(&unlimited.controls, "pids.max"), Some("1024"));
}

#[test]
fn jobs_have_their_own_groups() {
    let hierarchy = Hierarchy {
        root: GroupPath::parse("/sys/fs/cgroup/spur"),
    };
    let path = hierarchy.job_path(7);
    assert_eq!(path.text(), "/sys/fs/cgroup/spur/job_7");
    assert!(path.starts_with(&hierarchy.root));
    assert!(!hierarchy.job_path(8).starts_with(&path));
    assert_ne!(
        setup_job_failed(&path, true),
        setup_job_failed(&path, false)
    );

    let group = JobCgroup::new(path);
    assert!(group.cleanup_on_drop());
    assert_eq!(group.path().text(), "/sys/fs/cgroup/spur/job_7");
    assert_eq!(group.into_path().text(), "/sys/fs/cgroup/spur/job_7");
}

#[test]
fn memory_events_tell_of_kills() {
    assert!(oom_killed("low 0\noom 3\noom_kill 1\n"));
    assert!(!oom_killed("low 0\noom 3\noom_kill 0\n"));
    assert!(!oom_killed("oom_kill_disable 1\n"));
    assert!(!oom_killed("oom_kill\n"));
}

#[test]
fn process_lists_are_read_line_by_line() {
    assert_eq!(processes_to_kill("12\n345\nnot\n"), vec![12, 345]);
    assert_eq!(processes_to_kill(""), Vec::<i32>::new());
}
