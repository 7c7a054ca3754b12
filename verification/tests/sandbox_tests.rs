use robojail::config::Config;
use robojail::error::Error;
use robojail::jail::{
    basename_of, branch_display, branch_name_for, destroy_precheck, entrypoint_parts,
    removal_retries_with_force,
    resolve_absolute_command, status_label, str_contains, truncate, wait_decision, WaitEvent,
    WaitStep,
};
use robojail::namespace::{classify_unshare_error, identity_map_line};
use robojail::sandbox::{create_jail_sandbox, is_under_system_prefix, SandboxBuilder};
use robojail::security::set_no_new_privs;

#[test]
fn test_default_config() {
    let config = Config::default();
    assert_eq!(config.default_shell, "/bin/bash");
    assert!(config.network_enabled);
    assert!(config.hidden_paths.contains(&".ssh".to_string()));
}

#[test]
fn test_no_new_privs() {
    // This should succeed even without namespaces
    assert!(set_no_new_privs().is_ok());
}

#[test]
fn builder_collects_the_recipe() {
    let sandbox = SandboxBuilder::new("/work/tree")
        .share_net(false)
        .ro_bind("/opt/a", "/opt/a")
        .rw_bind("/scratch", "/scratch")
        .env("TERM", "xterm")
        .workdir("/src")
        .build();
    assert_eq!(sandbox.root, "/work/tree");
    assert!(!sandbox.share_net);
    assert_eq!(
        sandbox.ro_binds,
        vec![("/opt/a".to_string(), "/opt/a".to_string())]
    );
    assert_eq!(
        sandbox.rw_binds,
        vec![("/scratch".to_string(), "/scratch".to_string())]
    );
    assert_eq!(sandbox.env, vec![("TERM".to_string(), "xterm".to_string())]);
    assert_eq!(sandbox.workdir, "/src");
}

#[test]
fn child_env_is_exactly_the_fixed_four_plus_passthrough() {
    let mut config = Config::default();
    config.env_passthrough = vec!["TERM".to_string()];
    let passthrough = vec![("TERM".to_string(), "xterm-256color".to_string())];
    let sandbox = create_jail_sandbox("/w", &config, &passthrough, None);
    let env = sandbox.child_env();
    let expected = vec![
        ("HOME".to_string(), "/home/user".to_string()),
        ("USER".to_string(), "user".to_string()),
        (
            "PATH".to_string(),
            "/usr/local/bin:/usr/bin:/bin:/usr/local/sbin:/usr/sbin:/sbin".to_string(),
        ),
        ("ROBOJAIL".to_string(), "1".to_string()),
        ("TERM".to_string(), "xterm-256color".to_string()),
        ("HOME".to_string(), "/home/user".to_string()),
        ("USER".to_string(), "user".to_string()),
    ];
    assert_eq!(env, expected);
    // Nothing outside the fixed four and the passthrough keys appears.
    for (k, _) in &env {
        assert!(["HOME", "USER", "PATH", "ROBOJAIL", "TERM"].contains(&k.as_str()));
    }
}

#[test]
fn entrypoint_outside_system_prefixes_is_bound() {
    let config = Config::default();
    let ep = vec!["/opt/tools/agent".to_string()];
    let sandbox = create_jail_sandbox("/w", &config, &Vec::new(), Some(&ep));
    assert_eq!(
        sandbox.ro_binds,
        vec![("/opt/tools/agent".to_string(), "/opt/tools/agent".to_string())]
    );
}

#[test]
fn entrypoint_under_system_prefix_needs_no_bind() {
    let config = Config::default();
    let ep = vec!["/usr/bin/python".to_string()];
    let sandbox = create_jail_sandbox("/w", &config, &Vec::new(), Some(&ep));
    assert!(sandbox.ro_binds.is_empty());
}

#[test]
fn system_prefix_check_respects_component_boundaries() {
    assert!(is_under_system_prefix("/usr/bin/env"));
    assert!(is_under_system_prefix("/usr"));
    assert!(is_under_system_prefix("/lib/x86_64-linux-gnu/libc.so.6"));
    assert!(!is_under_system_prefix("/usrlocal/bin"));
    assert!(!is_under_system_prefix("/opt/tools/agent"));
    assert!(!is_under_system_prefix("relative/path"));
}

#[test]
fn test_destroy_guard() {
    // A live jail without force is a conflict.
    match destroy_precheck("demo", true, true, false) {
        Err(Error::JailRunning(n)) => assert_eq!(n, "demo"),
        _ => panic!("expected JailRunning"),
    }
    // With force it proceeds and the child must be killed.
    assert_eq!(destroy_precheck("demo", true, true, true).unwrap(), true);
    // A dead or absent child needs no killing.
    assert_eq!(destroy_precheck("demo", true, false, false).unwrap(), false);
    assert_eq!(destroy_precheck("demo", false, false, false).unwrap(), false);
}

#[test]
fn unshare_eperm_is_namespace_unavailable() {
    assert!(matches!(
        classify_unshare_error(1),
        Error::NamespacesUnavailable
    ));
    assert!(matches!(classify_unshare_error(22), Error::SandboxSetup(_)));
    assert!(matches!(classify_unshare_error(38), Error::SandboxSetup(_)));
}

#[test]
fn identity_map_maps_root_to_the_outer_id() {
    assert_eq!(identity_map_line(0), "0 0 1");
    assert_eq!(identity_map_line(1000), "0 1000 1");
    assert_eq!(identity_map_line(4294967295), "0 4294967295 1");
}

#[test]
fn branch_names_carry_prefix_name_and_suffix() {
    assert_eq!(branch_name_for("demo", "0a1b2c3d"), "robojail/demo-0a1b2c3d");
    assert_eq!(branch_display("robojail/demo-0a1b2c3d"), "demo-0a1b2c3d");
    assert_eq!(branch_display("main"), "main");
}

#[test]
fn truncate_cuts_with_an_ellipsis() {
    assert_eq!(truncate("short", 19), "short");
    assert_eq!(truncate("exactly-nineteen-ch", 19), "exactly-nineteen-ch");
    assert_eq!(truncate("this-is-rather-longer-than-that", 19), "this-is-rather-l...");
    assert_eq!(truncate("abc", 3), "abc");
    assert_eq!(truncate("abcd", 3), "...");
}

#[test]
fn status_labels() {
    assert_eq!(status_label(true, true), "running");
    assert_eq!(status_label(true, false), "stopped");
    assert_eq!(status_label(false, false), "stopped");
}

#[test]
fn removal_retry_rule() {
    assert!(removal_retries_with_force(true, ""));
    assert!(removal_retries_with_force(false, "fatal: 'x' contains modified or untracked files"));
    assert!(removal_retries_with_force(false, "worktree is dirty"));
    assert!(!removal_retries_with_force(false, "some other failure"));
    assert!(str_contains("hello world", "lo wo"));
    assert!(!str_contains("hello world", "wold"));
}

#[test]
fn entrypoint_lines_split_by_shell_rules() {
    let parts = entrypoint_parts("agent --dangerously-skip-permissions").unwrap();
    assert_eq!(parts, vec!["agent", "--dangerously-skip-permissions"]);
    let quoted = entrypoint_parts("/bin/echo 'a b' c").unwrap();
    assert_eq!(quoted, vec!["/bin/echo", "a b", "c"]);
    assert!(matches!(entrypoint_parts(""), Err(Error::Config(_))));
    assert!(matches!(entrypoint_parts("unterminated 'quote"), Err(Error::Config(_))));
}

#[test]
fn absolute_entrypoints_resolve_against_the_host() {
    assert_eq!(
        resolve_absolute_command("/", true).unwrap(),
        Some("/".to_string())
    );
    assert!(matches!(
        resolve_absolute_command("/no/such/bin", false),
        Err(Error::Config(_))
    ));
    assert_eq!(resolve_absolute_command("agent", false).unwrap(), None);
}

#[test]
fn path_components_for_display() {
    assert_eq!(basename_of("/home/user/repo"), "repo");
    assert_eq!(basename_of("repo"), "repo");
    assert_eq!(basename_of("/"), "");
}

#[test]
fn wait_decisions() {
    assert!(matches!(
        wait_decision(&WaitEvent::Exited(3)),
        WaitStep::Done(3)
    ));
    assert!(matches!(
        wait_decision(&WaitEvent::Signaled(9)),
        WaitStep::Done(137)
    ));
    assert!(matches!(wait_decision(&WaitEvent::Other), WaitStep::Again));
    assert!(matches!(
        wait_decision(&WaitEvent::Interrupted),
        WaitStep::Again
    ));
    match wait_decision(&WaitEvent::Failed(10)) {
        WaitStep::Fail(Error::Sys(10)) => {}
        _ => panic!("expected Sys(10)"),
    }
}
