use engenho_kubelet::backend::{ContainerSpec, PodIdentity, PullPolicy};
use engenho_kubelet::cri::{
    default_endpoints, exec_outcome, Endpoint, ExitDisposition, RunState,
};
use engenho_kubelet::cri_backend::{
    linux_resources, CriBackend, CriCall, CriGap, CriGaps, CriReply, CriStart, CriStatus, ImageStep,
    PodKey, Rpc,
};
use engenho_kubelet::error::KubeletError;
use engenho_kubelet::json::Json;
use engenho_kubelet::quantity::Resources;

#[test]
fn the_endpoint_accepts_the_forms_operators_actually_write() {
    assert_eq!(
        Endpoint::parse("unix:///run/containerd/containerd.sock"),
        Some(Endpoint("/run/containerd/containerd.sock".into()))
    );
    assert_eq!(
        Endpoint::parse("/run/crio/crio.sock"),
        Some(Endpoint("/run/crio/crio.sock".into()))
    );
    assert_eq!(Endpoint::parse("  /run/x.sock  "), Some(Endpoint("/run/x.sock".into())));
}

#[test]
fn a_tcp_endpoint_is_refused_because_cri_over_tcp_is_unauthenticated() {
    assert_eq!(Endpoint::parse("tcp://10.0.0.1:1234"), None);
    assert_eq!(Endpoint::parse("http://runtime:80"), None);
    assert_eq!(Endpoint::parse(""), None);
    assert_eq!(Endpoint::parse("unix://"), None);
}

#[test]
fn unknown_is_not_exited() {
    assert_eq!(RunState::from_cri(3, 0), RunState::Unknown);
    assert!(!RunState::Unknown.is_terminal());
    assert!(!RunState::Unknown.is_running());
    assert_eq!(RunState::Unknown.exit(), None);
    assert!(RunState::Exited(ExitDisposition::Code(0)).is_terminal());
}

#[test]
fn created_is_not_running() {
    assert_eq!(RunState::from_cri(0, 0), RunState::Created);
    assert!(!RunState::Created.is_running());
    assert!(RunState::from_cri(1, 0).is_running());
}

#[test]
fn a_cri_exit_carries_its_code_and_only_an_exited_state_reads_it() {
    assert_eq!(RunState::from_cri(2, 137), RunState::Exited(ExitDisposition::Code(137)));
    assert_eq!(RunState::from_cri(1, 0).exit(), None);
    assert_eq!(RunState::from_cri(0, 0).exit(), None);
}

#[test]
fn only_code_zero_is_success() {
    assert!(ExitDisposition::Code(0).is_success());
    assert!(!ExitDisposition::Code(1).is_success());
    assert!(!ExitDisposition::Signal(9).is_success());
    assert!(!ExitDisposition::Signal(0).is_success());
}

#[test]
fn a_signal_reports_upstreams_128_plus_n_exit_code() {
    assert_eq!(ExitDisposition::Signal(9).exit_code(), 137);
    assert_eq!(ExitDisposition::Signal(15).exit_code(), 143);
    assert_eq!(ExitDisposition::Code(3).exit_code(), 3);
    assert_eq!(ExitDisposition::Signal(i32::MAX).exit_code(), i32::MAX);
}

#[test]
fn non_utf8_output_does_not_fail_the_exec() {
    let out = exec_outcome(1, &[0xff, 0xfe, b'h', b'i'], b"err");
    assert_eq!(out.exit_code, 1);
    assert!(out.stdout.contains("hi"));
    assert_eq!(out.stderr, "err");
}

#[test]
fn the_default_endpoint_order_is_upstreams() {
    let all = default_endpoints();
    assert_eq!(all[0], "unix:///run/containerd/containerd.sock");
    assert_eq!(all[1], "unix:///run/crio/crio.sock");
    assert!(all.iter().all(|e| Endpoint::parse(e).is_some()));
}

// ---- the backend ----

fn ident() -> PodIdentity {
    PodIdentity {
        namespace: "ns".into(),
        name: "p".into(),
        uid: "u-1".into(),
        container_name: "c".into(),
        init: false,
    }
}

fn spec() -> ContainerSpec {
    let mut s = ContainerSpec::default();
    s.name = "ns_p_c".into();
    s.image = "i".into();
    s.pod = ident();
    s
}

fn backend() -> CriBackend {
    CriBackend::new(Endpoint("/nonexistent.sock".into()))
}

#[test]
fn the_log_directory_is_upstreams_layout() {
    assert_eq!(PodKey::of(&ident()).log_directory(), "/var/log/pods/ns_p_u-1");
}

#[test]
fn the_uid_is_part_of_the_sandbox_key() {
    let a = PodKey::of(&ident());
    let mut second = ident();
    second.uid = "u-2".into();
    assert_ne!(a, PodKey::of(&second));
}

#[test]
fn resources_lower_to_the_values_the_kernel_read_back() {
    let limits = Json::object()
        .with("cpu", Json::string("500m"))
        .with("memory", Json::string("256Mi"));
    let c = Json::object()
        .with("name", Json::string("c"))
        .with("image", Json::string("i"))
        .with("resources", Json::object().with("limits", limits));
    let r = linux_resources(&Resources::from_container_json(&c)).expect("declared");
    assert_eq!(r.cpu_quota, 50_000);
    assert_eq!(r.cpu_period, 100_000);
    assert_eq!(r.memory_limit_in_bytes, 268_435_456);
}

#[test]
fn an_undeclared_pod_gets_no_resource_block() {
    assert!(linux_resources(&Resources::default()).is_none());
}

#[test]
fn a_spec_without_pod_identity_is_refused_not_guessed() {
    let mut s = spec();
    s.pod = PodIdentity::default();
    let err = backend().sandbox_for(&s).unwrap_err();
    assert!(err.to_text().contains("pod identity"), "must name the cause: {err:?}");
}

#[test]
fn discover_returns_none_when_no_socket_exists() {
    assert!(CriBackend::discover(Some("/definitely/not/here.sock"), |_p: &str| false).is_none());
    assert!(CriBackend::discover(Some("tcp://10.0.0.1:1234"), |_p: &str| true).is_none());
}

#[test]
fn the_first_socket_that_is_there_is_taken() {
    let b = CriBackend::discover(None, |p: &str| p == "/run/crio/crio.sock").unwrap();
    assert_eq!(b.endpoint_path(), "/run/crio/crio.sock");
    assert_eq!(b.name(), "cri");
}

#[test]
fn a_container_is_started_call_by_call() {
    let mut b = backend();
    let s = spec();
    let (at, call) = b.start(&s);
    assert!(matches!(call, CriCall::RunPodSandbox(_)));
    let (at, call) = b.continue_start(&s, at, CriReply::SandboxRuns("sb".into()));
    assert!(matches!(call, CriCall::ImageStatus(_)));
    let (at, call) = b.continue_start(&s, at, CriReply::ImageSeen(Some("sha".into())));
    match call {
        CriCall::CreateContainer { sandbox_id, config } => {
            assert_eq!(sandbox_id, "sb");
            assert_eq!(config.image, "sha");
            assert_eq!(config.name, "c");
        }
        other => panic!("{other:?}"),
    }
    let (at, call) = b.continue_start(&s, at, CriReply::Created("ctr".into()));
    assert!(matches!(&call, CriCall::StartContainer(id) if id == "ctr"), "{call:?}");
    assert!(!matches!(at, CriStart::Over));
    assert_eq!(b.sandbox_of(&PodKey::of(&ident())), Some("sb".to_string()));
}

#[test]
fn an_image_that_must_be_there_is_not_fetched() {
    let mut s = spec();
    s.pull_policy = Some(PullPolicy::Never);
    assert!(CriBackend::ensure_image(&s, None).is_err());
    assert!(matches!(CriBackend::ensure_image(&s, Some("x".into())), Ok(ImageStep::Use(id)) if id == "x"));
    s.pull_policy = Some(PullPolicy::Always);
    assert!(matches!(CriBackend::ensure_image(&s, Some("x".into())), Ok(ImageStep::Pull)));
}

#[test]
fn a_runtime_that_knows_no_container_says_nothing() {
    assert!(CriBackend::status(None).is_none());
    let s = CriBackend::status(Some(CriStatus { id: "x".into(), state: 2, exit_code: 9 })).unwrap();
    assert!(!s.running);
    assert_eq!(s.exit_code, Some(9));
}

#[test]
fn what_is_missing_is_named() {
    let gaps = CriGaps::outstanding().unwrap();
    assert!(gaps.contains(CriGap::Mounts));
    assert_eq!(gaps.as_slice().len(), 3);
    assert!(gaps.to_text().contains(CriGap::PodIp.to_text()));
    let e = Rpc::RunPodSandbox.failed("down");
    assert_eq!(e.to_text(), "backend: RunPodSandbox: down");
    assert!(matches!(CriBackend::logs("cid"), KubeletError::Backend(w) if w.contains("cid")));
}

#[test]
fn sandboxes_are_kept_in_the_order_of_their_pods_one_for_each() {
    let mut b = backend();
    let named = |name: &str, uid: &str| {
        let mut s = spec();
        s.pod.name = name.into();
        s.pod.uid = uid.into();
        s
    };
    for (name, uid, id) in [("q", "u", "s3"), ("a", "u", "s1"), ("p", "u-2", "s2"), ("q", "u", "s4")] {
        let s = named(name, uid);
        let key = PodKey::of(&s.pod);
        b.continue_start(&s, CriStart::Sandbox { key }, CriReply::SandboxRuns(id.into()));
    }
    let told = |b: &CriBackend| -> Vec<(String, String)> {
        b.idle_sandboxes().into_iter().map(|(k, id)| (k.name, id)).collect()
    };
    let pair = |n: &str, id: &str| (n.to_string(), id.to_string());
    assert_eq!(told(&b), [pair("a", "s1"), pair("p", "s2"), pair("q", "s4")]);
    b.sandbox_gone(&PodKey::of(&named("p", "u-2").pod));
    assert_eq!(told(&b), [pair("a", "s1"), pair("q", "s4")]);
    assert_eq!(b.sandbox_of(&PodKey::of(&named("q", "u").pod)).as_deref(), Some("s4"));
    assert!(b.sandbox_of(&PodKey::of(&named("p", "u-2").pod)).is_none());
}
