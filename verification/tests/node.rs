use engenho_kubelet::config_bridge::{
    construction_refusal, make_container_runtime, make_container_runtime_with_apiserver,
    native_log_dir, BackendRefused, KubeletBackendKind, NodeFacts, RuntimeChoice,
};
use engenho_kubelet::cri_backend::{unsupported, CriGap, CriGaps};
use engenho_kubelet::json::Json;
use engenho_kubelet::node_lease::{
    find_ready_condition, grace_period, lease_key, lease_value, publish_readiness, readiness,
    ready_condition, renew_due, renew_interval, renew_time, NodeReadiness, LEASE_NAMESPACE,
};
use engenho_kubelet::time::{Duration, Instant};

#[allow(non_snake_case)]
fn S(secs: u64) -> Duration {
    Duration::from_secs(secs)
}

fn text<'a>(v: &'a Json, key: &str) -> &'a str {
    v.str_at(key).unwrap()
}

#[test]
fn a_node_that_stops_renewing_becomes_not_ready() {
    assert_eq!(readiness(Some(S(0))), NodeReadiness::Ready);
    assert_eq!(readiness(Some(grace_period())), NodeReadiness::Ready);
    let over = Duration { nanos: grace_period().nanos + S(1).nanos };
    assert_eq!(readiness(Some(over)), NodeReadiness::Stale);
}

#[test]
fn the_grace_period_is_several_intervals_not_one() {
    assert!(
        grace_period().nanos >= renew_interval().nanos * 3,
        "grace must tolerate several missed renewals"
    );
    let two = Duration { nanos: renew_interval().nanos * 2 };
    assert_eq!(readiness(Some(two)), NodeReadiness::Ready);
}

#[test]
fn never_heartbeat_is_distinct_from_stopped_heartbeating() {
    assert_eq!(readiness(None), NodeReadiness::Unknown);
    assert_eq!(NodeReadiness::Unknown.condition_status(), "Unknown");
    assert_eq!(NodeReadiness::Stale.condition_status(), "Unknown");
    assert_ne!(NodeReadiness::Unknown.reason(), NodeReadiness::Stale.reason());
}

#[test]
fn the_condition_carries_what_kubectl_describe_node_prints() {
    let c = ready_condition(NodeReadiness::Ready, "2026-08-29T21:00:00Z", None);
    assert_eq!(text(&c, "type"), "Ready");
    assert_eq!(text(&c, "status"), "True");
    assert_eq!(text(&c, "reason"), "KubeletReady");
    assert_eq!(text(&c, "lastHeartbeatTime"), "2026-08-29T21:00:00Z");
    assert_eq!(text(&c, "lastTransitionTime"), "2026-08-29T21:00:00Z");
}

#[test]
fn last_transition_time_only_moves_when_the_status_does() {
    let first = ready_condition(NodeReadiness::Ready, "2026-01-01T00:00:00Z", None);
    let later = ready_condition(NodeReadiness::Ready, "2026-01-01T01:00:00Z", Some(&first));
    assert_eq!(text(&later, "lastHeartbeatTime"), "2026-01-01T01:00:00Z");
    assert_eq!(
        text(&later, "lastTransitionTime"),
        "2026-01-01T00:00:00Z",
        "a steady node has not transitioned; its transition time must not move"
    );
    let flipped = ready_condition(NodeReadiness::Stale, "2026-01-01T02:00:00Z", Some(&later));
    assert_eq!(text(&flipped, "status"), "Unknown");
    assert_eq!(text(&flipped, "lastTransitionTime"), "2026-01-01T02:00:00Z");
    let back = ready_condition(NodeReadiness::Ready, "2026-01-01T03:00:00Z", Some(&flipped));
    assert_eq!(text(&back, "lastTransitionTime"), "2026-01-01T03:00:00Z");
}

fn node_with(conditions: Vec<Json>) -> Json {
    Json::object().with(
        "status",
        Json::object().with("conditions", Json::array(conditions)),
    )
}

#[test]
fn the_ready_condition_is_found_by_type_not_by_index() {
    let node = node_with(vec![
        Json::object()
            .with("type", Json::string("MemoryPressure"))
            .with("status", Json::string("False")),
        Json::object()
            .with("type", Json::string("Ready"))
            .with("status", Json::string("True"))
            .with("lastTransitionTime", Json::string("T")),
    ]);
    let found = find_ready_condition(&node).expect("Ready is present");
    assert_eq!(text(found, "lastTransitionTime"), "T");
    assert!(find_ready_condition(&node_with(vec![])).is_none());
    assert!(find_ready_condition(&Json::object()).is_none());
}

#[test]
fn lease_duration_is_seconds_because_upstreams_field_is() {
    let v = lease_value("cid", "2026-08-29T21:00:00Z", 0);
    assert_eq!(v.get2("spec", "leaseDurationSeconds").unwrap().as_i64(), Some(40));
    assert_eq!(v.str_at2("spec", "holderIdentity"), Some("cid"));
    assert_eq!(v.str_at2("metadata", "namespace"), Some(LEASE_NAMESPACE));
    assert_eq!(v.str_at("apiVersion"), Some("coordination.k8s.io/v1"));
    assert_eq!(renew_time(&v), Some("2026-08-29T21:00:00Z"));
}

#[test]
fn the_lease_lands_where_every_tool_looks_for_it() {
    let k = lease_key("cid");
    assert_eq!(k.group, "coordination.k8s.io");
    assert_eq!(k.kind, "Lease");
    assert_eq!(k.namespace.as_deref(), Some("kube-node-lease"));
    assert_eq!(k.name, "cid");
}

#[test]
fn a_lease_is_renewed_once_an_interval() {
    let t0 = Instant::after_start(S(100));
    assert_eq!(renew_due(None, t0), (true, Some(t0)));
    let t9 = t0.plus(S(9));
    assert_eq!(renew_due(Some(t0), t9), (false, Some(t0)));
    let t10 = t0.plus(S(10));
    assert_eq!(renew_due(Some(t0), t10), (true, Some(t10)));
}

#[test]
fn other_conditions_of_a_node_survive() {
    let node = node_with(vec![Json::object()
        .with("type", Json::string("DiskPressure"))
        .with("status", Json::string("False"))]);
    let out = publish_readiness(&node, NodeReadiness::Stale, "T").expect("it changes");
    let list = out.arr_at2("status", "conditions").unwrap();
    assert!(list.iter().any(|c| c.str_at("type") == Some("DiskPressure")));
    assert_eq!(find_ready_condition(&out).unwrap().str_at("status"), Some("Unknown"));
}

// ---- which runtime ----

fn facts() -> NodeFacts {
    NodeFacts { podman_socket: false, cri: None, native_log_dir: "/tmp/logs".into() }
}

#[test]
fn fake_backend_constructed() {
    let rt = make_container_runtime(KubeletBackendKind::Fake, None, facts())
        .expect("fake is not refused");
    assert_eq!(rt.name(), "fake");
}

#[test]
fn podman_backend_default_path() {
    let rt = make_container_runtime(KubeletBackendKind::Podman, None, facts())
        .expect("podman is not refused");
    assert_eq!(rt.name(), "podman");
}

#[test]
fn podman_backend_custom_path() {
    let rt = make_container_runtime(
        KubeletBackendKind::Podman,
        Some("/opt/podman/bin/podman"),
        facts(),
    )
    .expect("podman is not refused");
    assert_eq!(rt.name(), "podman");
    match rt {
        RuntimeChoice::Podman(p) => assert_eq!(p.binary, "/opt/podman/bin/podman"),
        other => panic!("{}", other.name()),
    }
}

fn expect_cri_refused(built: Result<RuntimeChoice, BackendRefused>) -> CriGaps {
    match built {
        Err(BackendRefused::CriIncomplete { missing }) => missing,
        Ok(rt) => panic!(
            "`cri` must be refused at construction, but a `{}` runtime was built",
            rt.name()
        ),
    }
}

#[test]
fn cri_is_refused_at_construction_with_a_typed_reason() {
    let missing = expect_cri_refused(make_container_runtime(KubeletBackendKind::Cri, None, facts()));
    assert!(missing.contains(CriGap::Mounts), "the reason names mounts");
    assert!(missing.contains(CriGap::PodIp), "the reason names the pod IP");
}

#[test]
fn cri_is_refused_on_the_constructor_the_runtime_boots_through() {
    let missing = expect_cri_refused(make_container_runtime_with_apiserver(
        KubeletBackendKind::Cri,
        Some("/opt/podman/bin/podman"),
        Some(("10.43.0.1".to_string(), 443)),
        facts(),
    ));
    assert!(missing.contains(CriGap::Mounts) && missing.contains(CriGap::PodIp));
}

#[test]
fn the_refusal_is_decided_before_anything_is_probed() {
    let refused = construction_refusal(KubeletBackendKind::Cri).expect("cri is refused");
    let BackendRefused::CriIncomplete { missing } = refused;
    assert_eq!(missing.as_slice(), unsupported());
}

#[test]
fn no_backend_a_node_runs_today_is_refused() {
    for kind in [
        KubeletBackendKind::PodmanApi,
        KubeletBackendKind::Podman,
        KubeletBackendKind::Fake,
        KubeletBackendKind::Native,
    ] {
        assert!(construction_refusal(kind).is_none(), "{kind:?} must not be refused");
    }
}

#[test]
fn the_refusal_tells_the_operator_every_gap_and_what_to_select() {
    let refused = construction_refusal(KubeletBackendKind::Cri).expect("cri is refused");
    let BackendRefused::CriIncomplete { missing } = refused;
    let shown = refused.to_text();
    assert!(shown.contains("`cri`"), "names the backend: {shown}");
    for gap in missing.as_slice() {
        assert!(shown.contains(gap.to_text()), "names {gap:?}: {shown}");
    }
    assert!(shown.contains("podman_api"), "names a backend that works: {shown}");
}

#[test]
fn podman_without_its_socket_falls_back_to_its_command() {
    let rt = make_container_runtime(KubeletBackendKind::PodmanApi, None, facts()).unwrap();
    assert_eq!(rt.name(), "podman");
    let with = NodeFacts { podman_socket: true, cri: None, native_log_dir: "/tmp/logs".into() };
    let rt = make_container_runtime(KubeletBackendKind::PodmanApi, None, with).unwrap();
    assert_eq!(rt.name(), "podman_api");
}

#[test]
fn the_log_directory_is_where_it_is_set_to() {
    assert_eq!(native_log_dir(Some("/var/x"), Some("/home/u"), "/tmp"), "/var/x");
    assert!(native_log_dir(None, Some("/home/u"), "/tmp").starts_with("/home/u"));
    assert!(native_log_dir(None, None, "/tmp").starts_with("/tmp"));
}
