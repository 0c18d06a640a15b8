use engenho_kubelet::backend::{
    ContainerSpec, LogOptions, MountSource, PodIdentity, Readoption, ResolvedMount,
};
use engenho_kubelet::cri::{ExitDisposition, RunState};
use engenho_kubelet::native_backend::{
    run_state_of, signal_target, stop_step, Isolation, NativeBackend, NativeCall, NativeReply,
    NativeStart, Polled, StopStep, Waited, HOST_NETWORK_POD_IP,
};

fn spec(image: &str, command: &[&str]) -> ContainerSpec {
    let mut s = ContainerSpec::default();
    s.name = "postgres".to_string();
    s.image = image.to_string();
    s.command = command.iter().map(|c| (*c).to_string()).collect();
    s.pod = PodIdentity {
        namespace: "pangea-system".to_string(),
        name: "pangea-postgres-0".to_string(),
        uid: String::new(),
        container_name: "postgres".to_string(),
        init: false,
    };
    s
}

fn mount(source: MountSource, mount_path: &str) -> ResolvedMount {
    ResolvedMount {
        source,
        mount_path: mount_path.to_string(),
        read_only: false,
        sub_path: None,
    }
}

fn backend() -> NativeBackend {
    NativeBackend::new(Isolation::HostProcess, "/tmp/nb-test-logs")
}

/// Starts a container whose every step succeeds.
fn started(b: &mut NativeBackend, s: &ContainerSpec) -> String {
    let (mut at, mut call) = b.start(s);
    loop {
        let reply = match &call {
            NativeCall::List(_) => NativeReply::Listed(Some(vec!["postgres".into()])),
            NativeCall::MakeDir(_) => NativeReply::Made,
            NativeCall::Poll(_) => NativeReply::Polled(Polled::Unchanged),
            NativeCall::Finish(r) => {
                return r.as_ref().expect("starts").container_id.clone();
            }
            NativeCall::OpenLog(_) => NativeReply::Opened,
            NativeCall::Spawn { .. } => NativeReply::Spawned { seen: true },
        };
        let (a, c) = b.continue_start(s, at, reply);
        at = a;
        call = c;
    }
}

#[test]
fn an_oci_image_is_refused_with_the_reason_and_the_remedy() {
    let b = backend();
    let (_, call) = b.start(&spec("docker.io/library/postgres:16-alpine", &["postgres"]));
    let msg = match call {
        NativeCall::Finish(Err(e)) => e.to_text(),
        other => panic!("an OCI image must be refused: {other:?}"),
    };
    assert!(msg.contains("docker.io/library/postgres:16-alpine"), "{msg}");
    assert!(
        msg.contains("no Linux runtime"),
        "the refusal must say WHY, or it reads like a crashed workload: {msg}"
    );
    assert!(msg.contains("nix:/nix/store/"), "the refusal must name the remedy: {msg}");
}

#[test]
fn a_command_escaping_the_closure_is_refused() {
    let err = NativeBackend::resolve_program("/nix/store/aaa-pkg", &["/bin/sh".to_string()], None)
        .expect_err("must refuse");
    assert!(err.to_text().contains("escapes the Nix store"));
}

#[test]
fn steps_upward_do_not_leave_the_closure_or_the_store() {
    let closure = "/nix/store/aaa-pkg";
    let program = |c: &str| NativeBackend::resolve_program(closure, &[c.to_string()], None);
    for c in [
        "../../../../bin/sh",
        "../../bbb-pkg/bin/sh",
        "../..",
        "../../..",
        "/nix/store/../../bin/sh",
        "/nix/store/aaa-pkg/../../../bin/sh",
        "/nix/../nix/store/aaa-pkg/bin/sh",
    ] {
        let e = program(c).expect_err("must refuse").to_text();
        assert!(e.contains("escapes the Nix store"), "{c}: {e}");
    }
    assert_eq!(program("../libexec/x").unwrap(), "/nix/store/aaa-pkg/bin/../libexec/x");
    assert_eq!(program("sub/../x").unwrap(), "/nix/store/aaa-pkg/bin/sub/../x");
    assert_eq!(program("/nix/store/bbb-pkg/bin/x").unwrap(), "/nix/store/bbb-pkg/bin/x");

    let mut b = backend();
    let id = started(&mut b, &spec("nix:/nix/store/aaa-pkg", &[]));
    let target = |c: &str| b.exec_target(&id, &[c.to_string()]);
    assert_eq!(target("psql").unwrap(), "/nix/store/aaa-pkg/bin/psql");
    assert!(target("../../../../bin/sh").unwrap_err().to_text().contains("escapes"));
    assert!(target("/bin/sh").unwrap_err().to_text().contains("escapes"));
}

#[test]
fn a_closure_that_is_the_store_is_refused() {
    let (at, call) = backend().start(&spec("nix:/nix/store//", &["x"]));
    assert!(matches!(at, NativeStart::Over));
    assert!(matches!(call, NativeCall::Finish(Err(_))));
}

#[test]
fn a_bare_command_resolves_into_the_closure_bin() {
    let p = NativeBackend::resolve_program("/nix/store/aaa-pkg", &["postgres".to_string()], None)
        .expect("must resolve");
    assert_eq!(p, "/nix/store/aaa-pkg/bin/postgres");
}

#[test]
fn a_closure_with_one_executable_needs_no_command() {
    assert_eq!(
        NativeBackend::sole_executable("/nix/store/one", Some(vec!["only-binary".into()]))
            .expect("one binary is unambiguous"),
        "/nix/store/one/bin/only-binary"
    );
}

#[test]
fn several_executables_are_refused_and_named() {
    let names = vec!["initdb".to_string(), "postgres".to_string(), "psql".to_string()];
    let err = NativeBackend::sole_executable("/nix/store/many", Some(names))
        .expect_err("ambiguous must refuse");
    let msg = err.to_text();
    assert!(msg.contains("ambiguous"), "{msg}");
    for n in ["initdb", "postgres", "psql"] {
        assert!(msg.contains(n), "the candidates must be named: {msg}");
    }
}

#[test]
fn a_closure_with_no_executable_has_no_entrypoint() {
    let err = NativeBackend::sole_executable("/nix/store/none", Some(vec![]))
        .expect_err("must refuse");
    assert!(err.to_text().contains("no entrypoint to infer"), "{err:?}");
}

#[test]
fn a_non_positive_pid_is_never_signalled() {
    assert!(signal_target(0).is_none(), "pid 0 is the process GROUP");
    assert!(signal_target(u32::MAX).is_none());
    assert_eq!(signal_target(7), Some(7));
}

#[test]
fn the_container_id_is_deterministic_and_namespaced() {
    assert_eq!(
        NativeBackend::container_id(&spec("nix:/nix/store/a-b", &["x"])),
        "pangea-system_pangea-postgres-0_postgres"
    );
}

#[test]
fn a_volume_that_cannot_be_remapped_is_refused_naming_both_paths() {
    let mut s = spec("nix:/nix/store/a-pkg", &["postgres"]);
    s.mounts = vec![mount(
        MountSource::UserHostPath("/Users/luis.d/pgdata".into()),
        "/var/lib/postgresql/data",
    )];
    let err = NativeBackend::verify_mounts(&s).expect_err("must refuse");
    let msg = err.to_text();
    assert!(msg.contains("/Users/luis.d/pgdata"), "{msg}");
    assert!(msg.contains("/var/lib/postgresql/data"), "{msg}");
    assert!(msg.contains("no mount namespace"), "{msg}");
    assert!(!msg.contains("  "), "the message must not carry source indentation: {msg}");
}

#[test]
fn a_volume_whose_host_path_equals_its_mount_path_is_accepted() {
    let dir = "/tmp/engenho-native-mount-ok";
    let mut s = spec("nix:/nix/store/a-pkg", &["postgres"]);
    s.mounts = vec![mount(MountSource::UserHostPath(dir.into()), dir)];
    let made = NativeBackend::verify_mounts(&s).expect("identical paths must be honourable");
    assert_eq!(made, vec![dir.to_string()], "the volume path must be created before start");
}

#[test]
fn a_named_volume_is_refused_because_it_has_no_host_path() {
    let mut s = spec("nix:/nix/store/a-pkg", &["postgres"]);
    s.mounts = vec![mount(
        MountSource::NamedVolume("pgdata".to_string()),
        "/var/lib/postgresql/data",
    )];
    let msg = NativeBackend::verify_mounts(&s).expect_err("must refuse").to_text();
    assert!(msg.contains("named volume"), "{msg}");
    assert!(msg.contains("hostPath"), "the remedy must be named: {msg}");
}

#[test]
fn logs_for_an_unknown_container_are_an_error_not_an_empty_success() {
    let err = backend().log_path("nope").expect_err("must be a typed error");
    assert!(err.to_text().contains("no such container"));
}

#[test]
fn a_native_container_answers_on_the_loopback() {
    assert_eq!(HOST_NETWORK_POD_IP, "127.0.0.1");
}

#[test]
fn a_sigkilled_process_is_signal_9_and_never_success() {
    let state = run_state_of(Some((None, Some(9))));
    assert_eq!(state, RunState::Exited(ExitDisposition::Signal(9)));
    assert!(
        !state.exit().is_some_and(ExitDisposition::is_success),
        "a killed process must never read as a success"
    );
}

#[test]
fn the_wait_status_decodes_into_code_signal_running_or_unknown() {
    assert_eq!(run_state_of(None), RunState::Running);
    assert_eq!(
        run_state_of(Some((Some(0), None))),
        RunState::Exited(ExitDisposition::Code(0))
    );
    assert_eq!(
        run_state_of(Some((Some(3), None))),
        RunState::Exited(ExitDisposition::Code(3))
    );
    assert_eq!(
        run_state_of(Some((None, Some(15)))),
        RunState::Exited(ExitDisposition::Signal(15))
    );
    assert_eq!(run_state_of(Some((None, None))), RunState::Unknown);
}

#[test]
fn a_process_is_killed_only_once_its_time_ran_out() {
    assert!(matches!(stop_step(Waited::Elapsed), StopStep::Kill));
    assert!(matches!(
        stop_step(Waited::Exited { code: None, signal: Some(15) }),
        StopStep::Reaped(RunState::Exited(ExitDisposition::Signal(15)))
    ));
    assert!(matches!(stop_step(Waited::Failed), StopStep::Reaped(RunState::Unknown)));
}

#[test]
fn a_container_is_found_at_the_loopback_and_ends_once() {
    let mut b = backend();
    let id = started(&mut b, &spec("nix:/nix/store/a-pkg", &[]));
    assert_eq!(b.readoption(), Readoption::Cannot);
    let up = b.status(&id, Polled::Unchanged).unwrap().unwrap();
    assert!(up.running);
    assert_eq!(up.pod_ip.as_deref(), Some(HOST_NETWORK_POD_IP));
    let ended = Polled::Ended(RunState::Exited(ExitDisposition::Code(4)));
    let down = b.status(&id, ended).unwrap().unwrap();
    assert!(!down.running);
    assert_eq!(down.exit_code, Some(4));
    let again = b.status(&id, Polled::Unchanged).unwrap().unwrap();
    assert_eq!(again.exit_code, Some(4));
    b.remove(&id, Polled::Unchanged).unwrap();
    assert!(b.status(&id, Polled::Unchanged).unwrap().is_none());
}

#[test]
fn a_container_that_is_not_reaped_is_not_forgotten() {
    let mut b = backend();
    let id = started(&mut b, &spec("nix:/nix/store/a-pkg", &[]));
    assert!(b.stop(&id).is_some());
    assert!(b.stop(&id).is_none(), "it is already being ended");
    let e = b.remove(&id, Polled::Unchanged).unwrap_err();
    assert_eq!(e.kind(), "not_reaped");
}

#[test]
fn the_last_lines_of_a_log_are_read() {
    let body: Result<String, String> = Ok("a\nb\nc\n".into());
    assert_eq!(NativeBackend::logs("/x", body, &LogOptions::tail(1)).unwrap().trim(), "c");
    let gone: Result<String, String> = Err("not there".into());
    assert!(NativeBackend::logs("/x", gone, &LogOptions::all()).is_err());
}

#[test]
fn a_start_that_is_over_asks_for_nothing() {
    let b = backend();
    let (at, _) = b.start(&spec("", &["x"]));
    assert!(matches!(at, NativeStart::Over));
}
