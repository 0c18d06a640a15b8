use engenho_kubelet::backend::{
    CommandOutput, ContainerSpec, ContainerStatus, ExecOutcome, FakeBackend, FakeEvent, LogOptions,
    NetworkStep, PodmanBackend, PodmanNetwork, PullPolicy,
};
use engenho_kubelet::table::Table;

fn named(name: &str, image: &str) -> ContainerSpec {
    let mut s = ContainerSpec::default();
    s.name = name.to_string();
    s.image = image.to_string();
    s
}

fn spec(name: &str, image: &str, env: &[(&str, &str)], command: &[&str]) -> ContainerSpec {
    let mut s = named(name, image);
    let mut table: Table<String> = Table::new();
    for (k, v) in env {
        table.insert(k, (*v).to_string());
    }
    s.env = table;
    s.command = command.iter().map(|c| (*c).to_string()).collect();
    s
}

fn spec_with_aliases(name: &str, image: &str, command: &[&str], aliases: &[&str]) -> ContainerSpec {
    let mut s = spec(name, image, &[], command);
    s.network_aliases = aliases.iter().map(|a| (*a).to_string()).collect();
    s
}

// ---- the fake runtime ----

#[test]
fn fake_backend_starts_assigns_id_and_ip() {
    let mut backend = FakeBackend::new();
    let status = backend.start(&named("podinfo", "stefanprodan/podinfo:6")).unwrap();
    assert!(status.running);
    assert!(status.pod_ip.is_some());
    assert!(status.container_id.starts_with("fake-"));
    assert_eq!(backend.running_count(), 1);
}

#[test]
fn fake_backend_stop_marks_not_running() {
    let mut backend = FakeBackend::new();
    let s = backend.start(&named("p", "i")).unwrap();
    backend.stop(&s.container_id).unwrap();
    let after = backend.status(&s.container_id).unwrap().unwrap();
    assert!(!after.running);
    assert_eq!(after.exit_code, Some(0));
}

#[test]
fn fake_backend_remove_clears_state() {
    let mut backend = FakeBackend::new();
    let s = backend.start(&named("p", "i")).unwrap();
    backend.remove(&s.container_id).unwrap();
    assert!(backend.status(&s.container_id).unwrap().is_none());
}

#[test]
fn fake_backend_events_record_in_order() {
    let mut backend = FakeBackend::new();
    let s = backend.start(&named("a", "i")).unwrap();
    backend.stop(&s.container_id).unwrap();
    backend.remove(&s.container_id).unwrap();
    let events = backend.events();
    assert_eq!(events.len(), 3);
    assert_eq!(events[0], FakeEvent::Start("a".into()));
    assert_eq!(events[1], FakeEvent::Stop(s.container_id.clone()));
    assert_eq!(events[2], FakeEvent::Remove(s.container_id));
}

#[test]
fn fake_backend_set_exit_marks_terminated_without_stop_event() {
    let mut backend = FakeBackend::new();
    let s = backend.start(&named("p", "i")).unwrap();
    backend.set_exit(&s.container_id, 137);
    let after = backend.status(&s.container_id).unwrap().unwrap();
    assert!(!after.running);
    assert_eq!(after.exit_code, Some(137));
    let events = backend.events();
    assert_eq!(events, vec![FakeEvent::Start("p".into())]);
}

#[test]
fn fake_backend_set_exit_zero_is_distinct_from_running() {
    let mut backend = FakeBackend::new();
    let s = backend.start(&named("q", "i")).unwrap();
    assert_eq!(backend.running_count(), 1);
    backend.set_exit(&s.container_id, 0);
    assert_eq!(backend.running_count(), 0);
    let after = backend.status(&s.container_id).unwrap().unwrap();
    assert_eq!(after.exit_code, Some(0));
}

#[test]
fn fake_backend_name_is_stable() {
    assert_eq!(FakeBackend::new().name(), "fake");
}

#[test]
fn fake_backend_logs_returns_seeded_content() {
    let mut backend = FakeBackend::new();
    backend.seed_log("default_p", "hello-engenho\n");
    let s = backend.start(&named("default_p", "i")).unwrap();
    let logs = backend.logs(&s.container_id, &LogOptions::all()).unwrap();
    assert_eq!(logs, "hello-engenho\n");
}

#[test]
fn fake_backend_logs_default_buffer_is_name_derived() {
    let mut backend = FakeBackend::new();
    let s = backend.start(&named("web", "i")).unwrap();
    let logs = backend.logs(&s.container_id, &LogOptions::all()).unwrap();
    assert!(logs.contains("web"), "default log derives from name: {logs:?}");
}

#[test]
fn fake_backend_logs_tail_trims_lines() {
    let mut backend = FakeBackend::new();
    backend.seed_log("c", "a\nb\nc\n");
    let s = backend.start(&named("c", "i")).unwrap();
    let last = backend.logs(&s.container_id, &LogOptions::tail(1)).unwrap();
    assert_eq!(last, "c\n");
}

#[test]
fn fake_backend_logs_missing_container_is_typed_error() {
    let backend = FakeBackend::new();
    let err = backend.logs("nonexistent", &LogOptions::all()).unwrap_err();
    assert_eq!(err.kind(), "backend");
}

#[test]
fn fake_backend_logs_cleared_on_remove() {
    let mut backend = FakeBackend::new();
    let s = backend.start(&named("c", "i")).unwrap();
    backend.remove(&s.container_id).unwrap();
    assert!(backend.logs(&s.container_id, &LogOptions::all()).is_err());
}

#[test]
fn two_fake_containers_have_two_ids() {
    let mut backend = FakeBackend::new();
    let a = backend.start(&named("c", "i")).unwrap();
    let b = backend.start(&named("c", "i")).unwrap();
    assert_ne!(a.container_id, b.container_id);
    assert_eq!(backend.containers().len(), 2);
}

// ---- podman ----

#[test]
fn podman_backend_name_is_stable() {
    assert_eq!(PodmanBackend::new().name(), "podman");
}

#[test]
fn podman_backend_accepts_custom_binary_path() {
    let backend = PodmanBackend::with_binary("/usr/local/bin/podman");
    assert_eq!(backend.binary, "/usr/local/bin/podman");
    assert_eq!(backend.pull_policy, PullPolicy::Never);
    assert!(backend.registry_auth_file.is_none());
}

#[test]
fn pull_policy_default_is_never() {
    assert_eq!(PullPolicy::default(), PullPolicy::Never);
    assert_eq!(PodmanBackend::new().pull_policy, PullPolicy::Never);
}

#[test]
fn pull_policy_flag_values() {
    assert_eq!(PullPolicy::Never.flag_value(), "never");
    assert_eq!(PullPolicy::Missing.flag_value(), "missing");
    assert_eq!(PullPolicy::IfNotPresent.flag_value(), "newer");
}

#[test]
fn run_argv_full_mapping_in_order() {
    let backend = PodmanBackend::new();
    let s = spec(
        "default_p1",
        "docker.io/library/busybox",
        &[("FOO", "bar")],
        &["sleep", "300"],
    );
    assert_eq!(
        backend.run_argv(&s),
        vec![
            "run",
            "-d",
            "--network",
            "engenho-net",
            "--pull",
            "never",
            "--name",
            "default_p1",
            "-e",
            "FOO=bar",
            "docker.io/library/busybox",
            "sleep",
            "300",
        ]
    );
}

#[test]
fn run_argv_empty_env_emits_no_dash_e() {
    let backend = PodmanBackend::new();
    let s = spec("c", "img", &[], &["echo", "hi"]);
    let argv = backend.run_argv(&s);
    assert!(!argv.iter().any(|a| a == "-e"), "no -e for empty env: {argv:?}");
    assert_eq!(
        argv,
        vec![
            "run", "-d", "--network", "engenho-net", "--pull", "never", "--name", "c", "img",
            "echo", "hi"
        ]
    );
}

#[test]
fn run_argv_empty_command_emits_no_trailing_args() {
    let backend = PodmanBackend::new();
    let s = spec("c", "img", &[], &[]);
    assert_eq!(
        backend.run_argv(&s),
        vec!["run", "-d", "--network", "engenho-net", "--pull", "never", "--name", "c", "img"]
    );
}

#[test]
fn run_argv_multi_env_is_sorted_deterministically() {
    let backend = PodmanBackend::new();
    let s = spec("c", "img", &[("ZED", "9"), ("ALPHA", "1"), ("MID", "5")], &[]);
    assert_eq!(
        backend.run_argv(&s),
        vec![
            "run", "-d", "--network", "engenho-net", "--pull", "never", "--name", "c", //
            "-e", "ALPHA=1", "-e", "MID=5", "-e", "ZED=9", //
            "img",
        ]
    );
}

#[test]
fn run_argv_honors_custom_pull_policy() {
    let backend = PodmanBackend::new().with_pull_policy(PullPolicy::IfNotPresent);
    let s = spec("c", "img", &[], &[]);
    let argv = backend.run_argv(&s);
    let pull_idx = argv.iter().position(|a| a == "--pull").unwrap();
    assert_eq!(argv[pull_idx + 1], "newer");
}

#[test]
fn run_argv_includes_shared_network_right_after_d() {
    let backend = PodmanBackend::new();
    let s = spec("c", "img", &[], &[]);
    let argv = backend.run_argv(&s);
    let d_idx = argv.iter().position(|a| a == "-d").unwrap();
    assert_eq!(argv[d_idx + 1], "--network");
    assert_eq!(argv[d_idx + 2], "engenho-net");
}

#[test]
fn run_argv_with_custom_named_network_overrides() {
    let backend = PodmanBackend::new().with_network(PodmanNetwork::Named("custom-net".into()));
    let s = spec("c", "img", &[], &[]);
    let argv = backend.run_argv(&s);
    let net_idx = argv.iter().position(|a| a == "--network").unwrap();
    assert_eq!(argv[net_idx + 1], "custom-net");
}

#[test]
fn run_argv_default_network_emits_no_network_flag() {
    let backend = PodmanBackend::new().with_network(PodmanNetwork::Default);
    let s = spec("c", "img", &[], &[]);
    let argv = backend.run_argv(&s);
    assert!(
        !argv.iter().any(|a| a == "--network"),
        "Default network must not emit --network: {argv:?}"
    );
    assert_eq!(argv, vec!["run", "-d", "--pull", "never", "--name", "c", "img"]);
}

#[test]
fn podman_network_default_is_engenho_net() {
    assert_eq!(PodmanNetwork::default(), PodmanNetwork::Named("engenho-net".into()));
    assert_eq!(PodmanBackend::new().network.name(), Some("engenho-net"));
}

#[test]
fn podman_network_name_accessor() {
    assert_eq!(PodmanNetwork::Named("x".into()).name(), Some("x"));
    assert_eq!(PodmanNetwork::Default.name(), None);
}

#[test]
fn network_exists_argv_shape() {
    assert_eq!(
        PodmanBackend::network_exists_argv("engenho-net"),
        vec!["network", "exists", "engenho-net"]
    );
}

#[test]
fn network_create_argv_shape() {
    assert_eq!(
        PodmanBackend::network_create_argv("engenho-net"),
        vec!["network", "create", "engenho-net"]
    );
}

#[test]
fn with_network_keeps_other_defaults() {
    let backend = PodmanBackend::new().with_network(PodmanNetwork::Named("n".into()));
    assert_eq!(backend.network, PodmanNetwork::Named("n".into()));
    assert_eq!(backend.pull_policy, PullPolicy::Never);
    assert!(backend.registry_auth_file.is_none());
}

#[test]
fn run_argv_emits_network_alias_after_network_before_pull() {
    let backend = PodmanBackend::new();
    let s = spec_with_aliases(
        "default_web-abc",
        "img",
        &[],
        &["web", "web.default", "web.default.svc.cluster.local"],
    );
    let argv = backend.run_argv(&s);
    assert_eq!(
        argv,
        vec![
            "run",
            "-d",
            "--network",
            "engenho-net",
            "--network-alias",
            "web",
            "--network-alias",
            "web.default",
            "--network-alias",
            "web.default.svc.cluster.local",
            "--pull",
            "never",
            "--name",
            "default_web-abc",
            "img",
        ]
    );
    let net_idx = argv.iter().position(|a| a == "--network").unwrap();
    let pull_idx = argv.iter().position(|a| a == "--pull").unwrap();
    let first_alias = argv.iter().position(|a| a == "--network-alias").unwrap();
    let last_alias = argv.iter().rposition(|a| a == "--network-alias").unwrap();
    assert!(net_idx < first_alias, "alias flags must follow --network");
    assert!(last_alias < pull_idx, "alias flags must precede --pull");
}

#[test]
fn run_argv_empty_aliases_emit_no_network_alias() {
    let backend = PodmanBackend::new();
    let s = spec_with_aliases("c", "img", &[], &[]);
    let argv = backend.run_argv(&s);
    assert!(
        !argv.iter().any(|a| a == "--network-alias"),
        "no --network-alias for empty aliases: {argv:?}"
    );
    assert_eq!(
        argv,
        vec!["run", "-d", "--network", "engenho-net", "--pull", "never", "--name", "c", "img"]
    );
}

#[test]
fn run_argv_default_network_omits_aliases_even_when_present() {
    let backend = PodmanBackend::new().with_network(PodmanNetwork::Default);
    let s = spec_with_aliases("c", "img", &[], &["web", "web.default"]);
    let argv = backend.run_argv(&s);
    assert!(
        !argv.iter().any(|a| a == "--network-alias"),
        "Default network must not emit --network-alias even with aliases set: {argv:?}"
    );
    assert!(
        !argv.iter().any(|a| a == "--network"),
        "Default network must not emit --network: {argv:?}"
    );
    assert_eq!(argv, vec!["run", "-d", "--pull", "never", "--name", "c", "img"]);
}

#[test]
fn run_argv_full_mapping_with_aliases_in_order() {
    let backend = PodmanBackend::new();
    let mut s = spec(
        "default_p1",
        "docker.io/library/busybox",
        &[("FOO", "bar")],
        &["sleep", "300"],
    );
    s.network_aliases = vec!["web".into(), "web.default".into()];
    assert_eq!(
        backend.run_argv(&s),
        vec![
            "run",
            "-d",
            "--network",
            "engenho-net",
            "--network-alias",
            "web",
            "--network-alias",
            "web.default",
            "--pull",
            "never",
            "--name",
            "default_p1",
            "-e",
            "FOO=bar",
            "docker.io/library/busybox",
            "sleep",
            "300",
        ]
    );
}

#[test]
fn inspect_argv_reads_per_network_ip() {
    let argv = PodmanBackend::inspect_argv("abc123");
    assert_eq!(
        argv,
        vec![
            "inspect",
            "--format",
            "{{.State.Running}}|{{.State.ExitCode}}|{{range .NetworkSettings.Networks}}{{.IPAddress}}{{end}}",
            "abc123",
        ]
    );
    let template = &argv[2];
    assert!(
        template.contains(".NetworkSettings.Networks"),
        "inspect template must range over .NetworkSettings.Networks: {template}"
    );
    assert!(
        !template.contains("{{.NetworkSettings.IPAddress}}"),
        "inspect template must NOT read the empty legacy top-level field: {template}"
    );
}

#[test]
fn stop_argv_maps_id() {
    assert_eq!(PodmanBackend::stop_argv("abc123"), vec!["stop", "abc123"]);
}

#[test]
fn rm_argv_force_removes_id() {
    assert_eq!(PodmanBackend::rm_argv("abc123"), vec!["rm", "-f", "abc123"]);
}

#[test]
fn logs_argv_no_options_is_bare() {
    assert_eq!(PodmanBackend::logs_argv("abc123", &LogOptions::all()), vec!["logs", "abc123"]);
}

#[test]
fn logs_argv_tail_emits_flag() {
    assert_eq!(
        PodmanBackend::logs_argv("abc123", &LogOptions::tail(50)),
        vec!["logs", "--tail", "50", "abc123"]
    );
}

#[test]
fn logs_argv_timestamps_emits_flag() {
    let opts = LogOptions { tail: Some(10), timestamps: true };
    assert_eq!(
        PodmanBackend::logs_argv("cid", &opts),
        vec!["logs", "--tail", "10", "--timestamps", "cid"]
    );
}

#[test]
fn log_options_default_is_all_lines() {
    assert_eq!(LogOptions::default(), LogOptions::all());
    assert!(LogOptions::all().tail.is_none());
    assert_eq!(LogOptions::tail(5).tail, Some(5));
}

#[test]
fn parse_inspect_running_with_ip() {
    let s = PodmanBackend::parse_inspect("cid", "true|0|10.88.0.4").unwrap();
    assert!(s.running);
    assert_eq!(s.exit_code, Some(0));
    assert_eq!(s.pod_ip.as_deref(), Some("10.88.0.4"));
    assert_eq!(s.container_id, "cid");
}

#[test]
fn parse_inspect_terminated_no_ip() {
    let s = PodmanBackend::parse_inspect("cid", "false|137|").unwrap();
    assert!(!s.running);
    assert_eq!(s.exit_code, Some(137));
    assert!(s.pod_ip.is_none());
}

#[test]
fn parse_inspect_trims_trailing_newline() {
    let s = PodmanBackend::parse_inspect("cid", "true|0|10.88.0.4\n").unwrap();
    assert!(s.running);
    assert_eq!(s.pod_ip.as_deref(), Some("10.88.0.4"));
}

#[test]
fn parse_inspect_rejects_short_shape() {
    let err = PodmanBackend::parse_inspect("cid", "true|0").unwrap_err();
    assert_eq!(err.kind(), "backend");
}

#[test]
fn parse_inspect_per_network_ip_is_surfaced() {
    let s = PodmanBackend::parse_inspect("cid", "true|0|10.89.0.4").unwrap();
    assert!(s.running);
    assert_eq!(s.exit_code, Some(0));
    assert_eq!(s.pod_ip.as_deref(), Some("10.89.0.4"));
}

#[test]
fn parse_inspect_empty_per_network_ip_is_none() {
    let s = PodmanBackend::parse_inspect("cid", "true|0|").unwrap();
    assert!(s.running);
    assert!(s.pod_ip.is_none(), "empty per-network IP must yield pod_ip None");
}

#[test]
fn podman_output_that_is_not_utf8_is_read_with_replacements() {
    let out = CommandOutput { success: true, code: Some(0), stdout: vec![b'o', b'k', 0xff], stderr: vec![] };
    assert_eq!(PodmanBackend::logs("cid", &out).unwrap(), "ok\u{fffd}");
}

#[test]
fn a_failed_podman_command_carries_its_words() {
    let out = CommandOutput { success: false, code: Some(125), stdout: vec![], stderr: b"boom".to_vec() };
    let e = PodmanBackend::logs("cid", &out).unwrap_err();
    assert_eq!(e.to_text(), "backend: podman logs failed for cid: boom");
}

#[test]
fn the_network_is_made_only_where_it_is_missing() {
    let backend = PodmanBackend::new();
    assert!(matches!(backend.ensure_network(Some(true), None), NetworkStep::Ready));
    let ambient = PodmanBackend::new().with_network(PodmanNetwork::Default);
    assert!(matches!(ambient.ensure_network(None, None), NetworkStep::Ready));
    assert!(!matches!(backend.ensure_network(Some(false), None), NetworkStep::Ready));
}

#[test]
fn exec_outcomes_and_statuses_hold_what_they_are_made_of() {
    assert_eq!(ExecOutcome::success().exit_code, 0);
    assert_eq!(ExecOutcome::failure(3).exit_code, 3);
    let s = ContainerStatus::running("id", "10.0.0.1");
    assert!(s.running);
    assert_eq!(s.copy(), s);
}
