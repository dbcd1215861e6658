use spur::spank::{
    parse_plugstack, spank_get_item, spank_getenv, spank_job_control_getenv,
    spank_job_control_setenv, spank_job_control_unsetenv, spank_setenv, spank_strerror,
    spank_unsetenv, SpankContext, SpankError, SpankHandle, SpankHook, SpankHost, SpankItem,
    ESPANK_BAD_ARG, ESPANK_ENV_EXISTS, ESPANK_ENV_NOEXIST, ESPANK_NOSPACE, ESPANK_NOT_AVAIL,
    ESPANK_SUCCESS,
};
use spur::strmap::StrMap;

#[test]
fn test_spank_host_new() {
    let host = SpankHost::new();
    assert_eq!(host.plugin_count(), 0);
}

#[test]
fn test_hook_symbol_names() {
    assert_eq!(SpankHook::Init.symbol_name(), "slurm_spank_init");
    assert_eq!(SpankHook::TaskExit.symbol_name(), "slurm_spank_task_exit");
}

#[test]
fn test_spank_hook_all_symbol_names() {
    // Verify all hook symbol names match Slurm convention
    assert_eq!(SpankHook::Init.symbol_name(), "slurm_spank_init");
    assert_eq!(
        SpankHook::InitPost.symbol_name(),
        "slurm_spank_init_post_opt"
    );
    assert_eq!(
        SpankHook::LocalUserInit.symbol_name(),
        "slurm_spank_local_user_init"
    );
    assert_eq!(SpankHook::UserInit.symbol_name(), "slurm_spank_user_init");
    assert_eq!(SpankHook::TaskInit.symbol_name(), "slurm_spank_task_init");
    assert_eq!(
        SpankHook::TaskInitPrivileged.symbol_name(),
        "slurm_spank_task_init_privileged"
    );
    assert_eq!(
        SpankHook::TaskPost.symbol_name(),
        "slurm_spank_task_post_fork"
    );
    assert_eq!(SpankHook::TaskExit.symbol_name(), "slurm_spank_task_exit");
    assert_eq!(SpankHook::JobEpilog.symbol_name(), "slurm_spank_job_epilog");
    assert_eq!(
        SpankHook::SlurmctldExit.symbol_name(),
        "slurm_spank_slurmd_exit"
    );
    assert_eq!(SpankHook::Exit.symbol_name(), "slurm_spank_exit");
}

#[test]
fn test_spank_host_empty_invoke() {
    let host = SpankHost::new();
    // Invoking hooks on empty host should succeed (no plugins to fail)
    assert!(host.invoke_hook(SpankHook::Init, &vec![]).is_ok());
    assert!(host.invoke_hook(SpankHook::TaskExit, &vec![]).is_ok());
    assert!(host.invoke_hook(SpankHook::JobEpilog, &vec![]).is_ok());
}

#[test]
fn test_plugstack_parse_valid() {
    let content = "# comment line\n\
        required /usr/lib/spank/plugin1.so arg1 arg2\n\
        optional /usr/lib/spank/plugin2.so\n\
        \n";

    let entries = parse_plugstack(content);
    assert_eq!(entries.len(), 2);
    assert!(entries[0].required);
    assert_eq!(entries[0].path, "/usr/lib/spank/plugin1.so");
    assert_eq!(entries[0].args, vec!["arg1", "arg2"]);
    assert!(!entries[1].required);
    assert_eq!(entries[1].path, "/usr/lib/spank/plugin2.so");
    assert!(entries[1].args.is_empty());
}

#[test]
fn test_spank_context_default() {
    let ctx = SpankContext::default();
    assert_eq!(ctx.job_id, 0);
    assert_eq!(ctx.uid, 0);
    assert_eq!(ctx.task_pid, 0);
}

#[test]
fn test_spank_item_ids_match_slurm() {
    assert_eq!(SpankItem::JobUid as i32, 0);
    assert_eq!(SpankItem::JobGid as i32, 1);
    assert_eq!(SpankItem::JobId as i32, 2);
    assert_eq!(SpankItem::JobStepId as i32, 3);
    assert_eq!(SpankItem::JobNnodes as i32, 4);
    assert_eq!(SpankItem::JobNodeid as i32, 5);
    assert_eq!(SpankItem::JobLocalTaskCount as i32, 6);
    assert_eq!(SpankItem::JobTotalTaskCount as i32, 7);
    assert_eq!(SpankItem::JobNcpus as i32, 8);
    assert_eq!(SpankItem::JobArgv as i32, 9);
    assert_eq!(SpankItem::TaskPid as i32, 14);
}

fn test_handle() -> SpankHandle {
    SpankHandle {
        context: SpankContext {
            job_id: 42,
            uid: 1000,
            gid: 1001,
            step_id: 3,
            num_nodes: 2,
            node_id: 1,
            local_task_count: 4,
            total_task_count: 8,
            task_pid: 12345,
        },
        env: StrMap::new(),
        job_control_env: StrMap::new(),
    }
}

fn get_item_u32(handle: &SpankHandle, item: SpankItem) -> Option<u32> {
    spank_get_item(handle, item as i32).ok()
}

#[test]
fn test_spank_get_item_returns_correct_fields() {
    let handle = test_handle();
    assert_eq!(get_item_u32(&handle, SpankItem::JobId), Some(42));
    assert_eq!(get_item_u32(&handle, SpankItem::JobUid), Some(1000));
    assert_eq!(get_item_u32(&handle, SpankItem::JobGid), Some(1001));
    assert_eq!(get_item_u32(&handle, SpankItem::TaskPid), Some(12345));
}

#[test]
fn items_read_the_field_that_they_name() {
    let handle = test_handle();
    assert_eq!(get_item_u32(&handle, SpankItem::JobStepId), Some(3));
    assert_eq!(get_item_u32(&handle, SpankItem::JobNnodes), Some(2));
    assert_eq!(get_item_u32(&handle, SpankItem::JobNodeid), Some(1));
    assert_eq!(get_item_u32(&handle, SpankItem::JobLocalTaskCount), Some(4));
    assert_eq!(get_item_u32(&handle, SpankItem::JobTotalTaskCount), Some(8));
    for number in 0..=14 {
        assert_eq!(SpankItem::from_number(number).unwrap().number(), number);
    }
    assert!(SpankItem::from_number(-1).is_none());
}

#[test]
fn test_spank_get_item_not_available_vs_bad_arg() {
    let handle = test_handle();
    assert_eq!(
        spank_get_item(&handle, SpankItem::JobNcpus as i32),
        Err(ESPANK_NOT_AVAIL)
    );
    assert_eq!(spank_get_item(&handle, 9999), Err(ESPANK_BAD_ARG));
}

#[test]
fn test_spank_setenv_overwrite_semantics() {
    let mut handle = test_handle();

    assert_eq!(
        spank_setenv(&mut handle, Some("FOO"), Some("one"), 0),
        ESPANK_SUCCESS
    );
    // overwrite = 0 on existing key must not clobber.
    assert_eq!(
        spank_setenv(&mut handle, Some("FOO"), Some("two"), 0),
        ESPANK_ENV_EXISTS
    );
    assert_eq!(handle.env.get("FOO").map(String::as_str), Some("one"));
    // overwrite = 1 replaces it.
    assert_eq!(
        spank_setenv(&mut handle, Some("FOO"), Some("two"), 1),
        ESPANK_SUCCESS
    );
    assert_eq!(handle.env.get("FOO").map(String::as_str), Some("two"));
}

#[test]
fn test_spank_getenv_roundtrip_and_errors() {
    let mut handle = test_handle();
    spank_setenv(&mut handle, Some("BAR"), Some("baz"), 1);

    assert_eq!(
        spank_getenv(&handle, Some("BAR"), 16),
        Ok(b"baz\0".to_vec())
    );

    // Missing key.
    assert_eq!(
        spank_getenv(&handle, Some("NOPE"), 16),
        Err(ESPANK_ENV_NOEXIST)
    );

    // Buffer too small (value "baz" needs 4 bytes incl. NUL).
    assert_eq!(spank_getenv(&handle, Some("BAR"), 2), Err(ESPANK_NOSPACE));
}

#[test]
fn test_spank_job_control_setenv_prefixes_key() {
    let mut handle = test_handle();
    assert_eq!(
        spank_job_control_setenv(&mut handle, Some("TOKEN"), Some("secret"), 0),
        ESPANK_SUCCESS
    );
    assert_eq!(
        handle
            .job_control_env
            .get("SPANK_TOKEN")
            .map(String::as_str),
        Some("secret")
    );
}

#[test]
fn test_spank_strerror_success() {
    assert_eq!(spank_strerror(ESPANK_SUCCESS), "Success");
}

#[test]
fn test_spank_handle_new_seeds_context_and_env() {
    let mut env = StrMap::new();
    env.insert("A".to_string(), "1".to_string());
    let ctx = SpankContext {
        job_id: 7,
        ..Default::default()
    };
    let handle = SpankHandle::new(ctx, env);
    assert_eq!(handle.context.job_id, 7);
    assert_eq!(handle.env.get("A").map(String::as_str), Some("1"));
    assert_eq!(handle.job_control_env.len(), 0);
}

#[test]
fn missing_arguments_are_bad() {
    let mut handle = test_handle();
    assert_eq!(spank_setenv(&mut handle, None, Some("x"), 1), ESPANK_BAD_ARG);
    assert_eq!(spank_setenv(&mut handle, Some("X"), None, 1), ESPANK_BAD_ARG);
    assert_eq!(spank_getenv(&handle, None, 16), Err(ESPANK_BAD_ARG));
    assert_eq!(spank_getenv(&handle, Some("X"), -1), Err(ESPANK_BAD_ARG));
    assert_eq!(
        spank_getenv(&handle, Some("X"), 0),
        Err(ESPANK_ENV_NOEXIST)
    );
    assert_eq!(
        spank_job_control_getenv(&handle, Some("X"), 0),
        Err(ESPANK_BAD_ARG)
    );
    assert_eq!(spank_unsetenv(&mut handle, None), ESPANK_BAD_ARG);
    assert_eq!(handle.env.len(), 0);
}

#[test]
fn variables_can_be_taken_back() {
    let mut handle = test_handle();
    spank_setenv(&mut handle, Some("GONE"), Some("soon"), 0);
    assert_eq!(spank_unsetenv(&mut handle, Some("GONE")), ESPANK_SUCCESS);
    assert_eq!(spank_getenv(&handle, Some("GONE"), 8), Err(ESPANK_ENV_NOEXIST));

    spank_job_control_setenv(&mut handle, Some("T"), Some("v"), 0);
    assert_eq!(
        spank_job_control_getenv(&handle, Some("T"), 2),
        Ok(b"v\0".to_vec())
    );
    assert_eq!(
        spank_job_control_unsetenv(&mut handle, Some("T")),
        ESPANK_SUCCESS
    );
    assert_eq!(
        spank_job_control_getenv(&handle, Some("T"), 2),
        Err(ESPANK_ENV_NOEXIST)
    );
}

#[test]
fn the_first_failing_plugin_stops_a_hook() {
    let mut host = SpankHost::new();
    host.load_plugin("/usr/lib/spank/first.so", &vec!["a=1".to_string()]);
    host.load_plugin("/usr/lib/spank/second.so", &vec![]);
    assert_eq!(host.plugin_count(), 2);
    assert_eq!(host.plugins[0].name, "first");
    assert_eq!(host.plugins[0].argv, vec!["a=1"]);
    assert!(host
        .invoke_hook(SpankHook::Init, &vec![Some(0), None])
        .is_ok());
    let error = host
        .invoke_hook(SpankHook::Init, &vec![Some(0), Some(-3)])
        .unwrap_err();
    match &error {
        SpankError::HookFailed { plugin, hook, rc } => {
            assert_eq!(plugin, "second");
            assert_eq!(hook, "slurm_spank_init");
            assert_eq!(*rc, -3);
        }
        other => panic!("unexpected: {other:?}"),
    }
    assert!(error.message().contains("second"));
    assert!(SpankError::LoadFailed("no file".into())
        .message()
        .contains("no file"));
}

#[test]
fn unreadable_plugstack_lines_are_skipped() {
    let entries = parse_plugstack("required\n  # note\nmaybe /x.so\n\trequired\u{a0}/y.so v\n");
    assert!(entries.iter().any(|e| e.required && e.path == "/y.so" && e.args == vec!["v"]));
}
