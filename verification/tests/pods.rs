use engenho_kubelet::backend::PullPolicy;
use engenho_kubelet::json::Json;
use engenho_kubelet::lifecycle::{
    ContainerState, ContainerStatusOut, PodPhase, RestartPolicy, Termination,
};
use engenho_kubelet::pod_env::EnvSources;
use engenho_kubelet::pod_spec::{
    pod_already_terminal, pod_is_bound_to, pod_restart_policy, pod_to_container_specs,
    pod_to_init_container_specs,
};
use engenho_kubelet::pod_status::{build_pod_status, build_pod_status_with_init};
use engenho_kubelet::resource::ResourceKey;
use engenho_kubelet::services::{
    service_aliases_for_pod, service_cluster_ip_hosts, DEFAULT_CLUSTER_DOMAIN,
};
use serde_json::Value;

fn from_value(v: &Value) -> Json {
    match v {
        Value::Null => Json::Null,
        Value::Bool(b) => Json::Bool(*b),
        Value::Number(n) => match n.as_i64() {
            Some(i) => Json::Int(i as i128),
            None => Json::Decimal(n.to_string()),
        },
        Value::String(s) => Json::string(s),
        Value::Array(items) => Json::array(items.iter().map(from_value).collect()),
        Value::Object(fields) => {
            let mut out = Json::object();
            for (k, x) in fields {
                out.set(k, from_value(x));
            }
            out
        }
    }
}

fn j(text: &str) -> Json {
    from_value(&serde_json::from_str(text).expect("JSON"))
}

fn to_value(v: &Json) -> Value {
    match v {
        Json::Null => Value::Null,
        Json::Bool(b) => Value::Bool(*b),
        Json::Int(n) => Value::from(*n as i64),
        Json::Decimal(s) => serde_json::from_str(s).expect("number"),
        Json::Str(s) => Value::String(s.clone()),
        Json::Arr(items) => Value::Array(items.iter().map(to_value).collect()),
        Json::Obj(fields) => {
            Value::Object(fields.iter().map(|(k, x)| (k.clone(), to_value(x))).collect())
        }
    }
}

const NOW: &str = "2026-01-02T03:04:05Z";

fn build(
    live: &Json,
    phase: PodPhase,
    statuses: &[ContainerStatusOut],
    pod_ip: Option<&str>,
) -> Value {
    to_value(&build_pod_status(live, phase, statuses, pod_ip, NOW))
}

#[test]
fn pod_identity_survives_the_pod_path_unfused() {
    let pod = j(r#"{
        "metadata": {"uid": "0e1f-CAFE"},
        "spec": {"containers": [{"name": "my_container", "image": "i"}]}
    }"#);
    let specs =
        pod_to_container_specs("my_ns", "my_pod", &pod, &EnvSources::new()).unwrap();
    let (_, spec) = &specs[0];
    assert_eq!(spec.name, "my_ns_my_pod_my_container", "the lossy join");
    assert_eq!(spec.name.split('_').count(), 6, "6 pieces, 3 fields");
    assert!(spec.pod.is_present());
    assert_eq!(spec.pod.namespace, "my_ns");
    assert_eq!(spec.pod.name, "my_pod");
    assert_eq!(spec.pod.uid, "0e1f-CAFE");
    assert_eq!(spec.pod.container_name, "my_container");
    assert!(!spec.pod.init);
}

#[test]
fn an_init_container_is_marked_as_one() {
    let pod = j(r#"{
        "metadata": {"uid": "u1"},
        "spec": {
            "initContainers": [{"name": "setup", "image": "i"}],
            "containers": [{"name": "app", "image": "i"}]
        }
    }"#);
    let init = pod_to_init_container_specs("ns", "p", &pod, &EnvSources::new()).unwrap();
    assert!(
        init[0].1.pod.init,
        "init containers must be distinguishable"
    );
    assert_eq!(init[0].1.pod.container_name, "setup");
    let app = pod_to_container_specs("ns", "p", &pod, &EnvSources::new()).unwrap();
    assert!(!app[0].1.pod.init);
}

#[test]
fn every_container_has_a_pull_policy() {
    let pod = j(r#"{
        "spec": {
            "initContainers": [{"name": "i", "image": "i", "imagePullPolicy": "Never"}],
            "containers": [
                {"name": "a", "image": "i"},
                {"name": "b", "image": "i", "imagePullPolicy": "Sometimes"},
                {"name": "c", "image": "i", "imagePullPolicy": "IfNotPresent"},
                {"name": "d", "image": "i", "imagePullPolicy": "Always"},
                {"name": "e", "image": "i", "imagePullPolicy": "Never"}
            ]
        }
    }"#);
    let specs = pod_to_container_specs("ns", "p", &pod, &EnvSources::new()).unwrap();
    let policies: Vec<Option<PullPolicy>> = specs.iter().map(|(_, s)| s.pull_policy).collect();
    assert_eq!(
        policies,
        vec![
            Some(PullPolicy::IfNotPresent),
            Some(PullPolicy::IfNotPresent),
            Some(PullPolicy::IfNotPresent),
            Some(PullPolicy::Always),
            Some(PullPolicy::Never),
        ]
    );
    let init = pod_to_init_container_specs("ns", "p", &pod, &EnvSources::new()).unwrap();
    assert_eq!(init[0].1.pull_policy, Some(PullPolicy::Never));
}

#[test]
fn pod_to_container_specs_extracts_image_and_env() {
    let pod = j(r#"{
        "spec": {
            "containers": [{
                "name": "main",
                "image": "nginx:1.27",
                "env": [
                    {"name": "FOO", "value": "bar"}
                ]
            }]
        }
    }"#);
    let specs =
        pod_to_container_specs("default", "p1", &pod, &EnvSources::new()).unwrap();
    assert_eq!(specs.len(), 1);
    let (cname, spec) = &specs[0];
    assert_eq!(cname, "main");
    assert_eq!(spec.name, "default_p1_main");
    assert_eq!(spec.image, "nginx:1.27");
    assert_eq!(spec.env.get("FOO").map(String::as_str), Some("bar"));
    assert!(spec.command.is_empty());
}

#[test]
fn pod_to_container_specs_extracts_command_and_args() {
    let pod = j(r#"{
        "spec": {
            "containers": [{
                "name": "c",
                "image": "alpine",
                "command": ["sh", "-c"],
                "args": ["echo hi; sleep 3600"]
            }]
        }
    }"#);
    let specs = pod_to_container_specs("ns", "x", &pod, &EnvSources::new()).unwrap();
    assert_eq!(specs[0].1.command, vec!["sh", "-c", "echo hi; sleep 3600"]);
}

#[test]
fn pod_to_container_specs_multi_container() {
    let pod = j(r#"{
        "spec": {
            "containers": [
                {"name": "web", "image": "nginx"},
                {"name": "sidecar", "image": "busybox", "command": ["sleep", "300"]}
            ]
        }
    }"#);
    let specs =
        pod_to_container_specs("default", "p", &pod, &EnvSources::new()).unwrap();
    assert_eq!(specs.len(), 2);
    assert_eq!(specs[0].0, "web");
    assert_eq!(specs[0].1.name, "default_p_web");
    assert_eq!(specs[1].0, "sidecar");
    assert_eq!(specs[1].1.name, "default_p_sidecar");
    assert_eq!(specs[1].1.command, vec!["sleep", "300"]);
}

#[test]
fn pod_to_container_specs_rejects_missing_image() {
    let pod = j(r#"{"spec": {"containers": [{"name": "c"}]}}"#);
    let err = pod_to_container_specs("ns", "p", &pod, &EnvSources::new()).unwrap_err();
    assert_eq!(err.kind(), "invalid_pod");
}

#[test]
fn pod_to_container_specs_rejects_empty_containers() {
    let pod = j(r#"{"spec": {"containers": []}}"#);
    assert!(pod_to_container_specs("n", "p", &pod, &EnvSources::new()).is_err());
}

#[test]
fn pod_to_container_specs_rejects_no_spec() {
    let pod = j(r#"{"metadata": {"name": "p"}}"#);
    assert!(pod_to_container_specs("n", "p", &pod, &EnvSources::new()).is_err());
}

#[test]
fn pod_restart_policy_reads_spec_with_always_default() {
    assert_eq!(
        pod_restart_policy(&j(r#"{"spec": {"restartPolicy": "Never"}}"#)),
        RestartPolicy::Never
    );
    assert_eq!(
        pod_restart_policy(&j(r#"{"spec": {"restartPolicy": "OnFailure"}}"#)),
        RestartPolicy::OnFailure
    );
    assert_eq!(
        pod_restart_policy(&j(r#"{"spec": {}}"#)),
        RestartPolicy::Always
    );
}

#[test]
fn pod_is_bound_to_matches_node_name() {
    let pod = j(r#"{"spec": {"nodeName": "node-1"}}"#);
    assert!(pod_is_bound_to(&pod, "node-1"));
    assert!(!pod_is_bound_to(&pod, "other-node"));
}

#[test]
fn pod_is_bound_to_false_when_unbound() {
    let pod = j(r#"{"spec": {}}"#);
    assert!(!pod_is_bound_to(&pod, "node-1"));
}

#[test]
fn pod_to_container_specs_names_default_main_then_index() {
    let pod = j(r#"{"spec": {"containers": [{"image": "a"}, {"image": "b"}]}}"#);
    let specs = pod_to_container_specs("ns", "p", &pod, &EnvSources::new()).unwrap();
    assert_eq!(specs[0].0, "main");
    assert_eq!(specs[1].0, "container-1");
}

#[test]
fn pod_already_terminal_detects_terminal_phases() {
    assert!(pod_already_terminal(
        &j(r#"{"status": {"phase": "Succeeded"}}"#)
    ));
    assert!(pod_already_terminal(
        &j(r#"{"status": {"phase": "Failed"}}"#)
    ));
    assert!(!pod_already_terminal(
        &j(r#"{"status": {"phase": "Running"}}"#)
    ));
    assert!(!pod_already_terminal(
        &j(r#"{"status": {"phase": "Pending"}}"#)
    ));
    assert!(!pod_already_terminal(&j(r#"{"spec": {}}"#)));
}

fn one_running_status() -> Vec<ContainerStatusOut> {
    vec![ContainerStatusOut {
        name: "c".into(),
        ready: true,
        state: ContainerState::Running,
        container_id: Some("fake-1".into()),
        restart_count: 0,
    }]
}

fn type_of<'a>(status: &'a Value, ty: &str) -> Option<&'a Value> {
    status["conditions"]
        .as_array()?
        .iter()
        .find(|c| c["type"] == ty)
}

#[test]
fn a_condition_the_kubelet_does_not_own_survives_the_render() {
    let live = j(r#"{"status": {"conditions": [
        {"type": "PodScheduled", "status": "False", "reason": "Unschedulable"},
        {"type": "DisruptionTarget", "status": "True", "reason": "EvictionByEvictionAPI"}
    ]}}"#);
    let status =
        build(&live, PodPhase::Running, &one_running_status(), None);

    let foreign = type_of(&status, "DisruptionTarget").expect("preserved");
    assert_eq!(foreign["reason"], "EvictionByEvictionAPI");

    let fresh =
        build(&j(r#"{}"#), PodPhase::Running, &one_running_status(), None);
    assert!(
        type_of(&fresh, "DisruptionTarget").is_none(),
        "the renderer must PRESERVE, never invent: {fresh}"
    );
}

#[test]
fn own_conditions_come_before_those_of_others() {
    let live = j(r#"{"status": {"conditions": [
        {"type": "DisruptionTarget", "status": "True"},
        {"type": "Ready", "status": "True"},
        {"type": "example.com/gate", "status": "False"}
    ]}}"#);
    let told = |status: &Value| -> Vec<String> {
        let list = status["conditions"].as_array().unwrap();
        list.iter().map(|c| c["type"].as_str().unwrap().to_string()).collect()
    };
    let status = build(&live, PodPhase::Running, &one_running_status(), None);
    assert_eq!(
        told(&status),
        ["ContainersReady", "Ready", "PodScheduled", "DisruptionTarget", "example.com/gate"]
    );
    let init = build_pod_status_with_init(
        &live,
        PodPhase::Pending,
        &[],
        &one_running_status(),
        None,
        false,
        true,
        NOW,
    );
    let init = to_value(&init);
    assert_eq!(
        told(&init),
        [
            "ContainersReady",
            "Ready",
            "Initialized",
            "PodScheduled",
            "DisruptionTarget",
            "example.com/gate"
        ]
    );
    assert_eq!(init["conditions"][2]["status"], "False");
    let again = Json::object().with("status", from_value(&status));
    assert_eq!(
        build(&again, PodPhase::Running, &one_running_status(), None),
        status,
        "a status that is told already is told the same"
    );
}

#[test]
fn a_stale_unschedulable_is_transitioned_not_deleted() {
    let live = j(r#"{"status": {"conditions": [
        {"type": "PodScheduled", "status": "False", "reason": "Unschedulable"}
    ]}}"#);
    let status =
        build(&live, PodPhase::Running, &one_running_status(), None);
    let sched =
        type_of(&status, "PodScheduled").expect("PodScheduled is owned and always emitted");
    assert_eq!(
        sched["status"], "True",
        "transitioned, not deleted: {status}"
    );
    let n = status["conditions"]
        .as_array()
        .unwrap()
        .iter()
        .filter(|c| c["type"] == "PodScheduled")
        .count();
    assert_eq!(n, 1, "no duplicate PodScheduled: {status}");
}

#[test]
fn start_time_is_latched_not_reminted_on_every_render() {
    let live = j(r#"{"status": {"startTime": "2026-01-01T00:00:00Z"}}"#);
    let a = build(&live, PodPhase::Running, &one_running_status(), None);
    assert_eq!(a["startTime"], "2026-01-01T00:00:00Z");
    let b = build(&live, PodPhase::Running, &one_running_status(), None);
    assert_eq!(a, b, "the render must be stable at steady state");
    let fresh =
        build(&j(r#"{}"#), PodPhase::Running, &one_running_status(), None);
    assert!(fresh["startTime"].as_str().is_some_and(|t| !t.is_empty()));
}

#[test]
fn pod_ips_is_derived_from_pod_ip_not_written_twice() {
    let status = build(
        &j(r#"{}"#),
        PodPhase::Running,
        &one_running_status(),
        Some("10.42.0.7"),
    );
    assert_eq!(status["podIP"], "10.42.0.7");
    assert_eq!(status["podIPs"][0]["ip"], "10.42.0.7");
    let none =
        build(&j(r#"{}"#), PodPhase::Pending, &one_running_status(), None);
    assert!(none.get("podIPs").is_none(), "{none}");
}

#[test]
fn build_pod_status_running_carries_ready_and_pod_ip() {
    let statuses = vec![ContainerStatusOut {
        name: "web".into(),
        ready: true,
        state: ContainerState::Running,
        container_id: Some("fake-1".into()),
        restart_count: 0,
    }];
    let status =
        build(&j(r#"{}"#), PodPhase::Running, &statuses, Some("10.42.0.5"));
    assert_eq!(status["phase"], "Running");
    assert_eq!(status["podIP"], "10.42.0.5");
    assert_eq!(status["conditions"][0]["type"], "ContainersReady");
    assert_eq!(status["conditions"][0]["status"], "True");
    assert_eq!(status["conditions"][1]["type"], "Ready");
    assert_eq!(status["conditions"][1]["status"], "True");
    assert_eq!(status["containerStatuses"][0]["name"], "web");
    assert_eq!(status["containerStatuses"][0]["ready"], true);
    assert!(status["containerStatuses"][0]["state"]["running"].is_object());
    assert_eq!(status["containerStatuses"][0]["containerID"], "fake-1");
    assert_eq!(status["containerStatuses"][0]["restartCount"], 0);
}

#[test]
fn build_pod_status_succeeded_retains_pod_ip() {
    let statuses = vec![ContainerStatusOut {
        name: "web".into(),
        ready: false,
        state: ContainerState::terminated(Termination::from_exit_code(Some(0))),
        container_id: Some("fake-2".into()),
        restart_count: 0,
    }];
    let status = build(
        &j(r#"{}"#),
        PodPhase::Succeeded,
        &statuses,
        Some("10.42.0.9"),
    );
    assert_eq!(status["phase"], "Succeeded");
    assert_eq!(status["conditions"][0]["type"], "ContainersReady");
    assert_eq!(status["conditions"][0]["status"], "False");
    assert_eq!(status["conditions"][1]["type"], "Ready");
    assert_eq!(status["conditions"][1]["status"], "False");
    let term = &status["containerStatuses"][0]["state"]["terminated"];
    assert_eq!(term["exitCode"], 0);
    assert_eq!(term["reason"], "Completed");
    assert_eq!(status["podIP"], "10.42.0.9");
}

#[test]
fn build_pod_status_failed_nonzero() {
    let statuses = vec![ContainerStatusOut {
        name: "web".into(),
        ready: false,
        state: ContainerState::terminated(Termination::from_exit_code(Some(137))),
        container_id: Some("fake-3".into()),
        restart_count: 0,
    }];
    let status = build(&j(r#"{}"#), PodPhase::Failed, &statuses, None);
    assert_eq!(status["phase"], "Failed");
    let term = &status["containerStatuses"][0]["state"]["terminated"];
    assert_eq!(term["exitCode"], 137);
    assert_eq!(term["reason"], "Error");
    assert!(status.get("podIP").is_none());
}

#[test]
fn build_pod_status_multi_container_array() {
    let statuses = vec![
        ContainerStatusOut {
            name: "web".into(),
            ready: true,
            state: ContainerState::Running,
            container_id: Some("id-web".into()),
            restart_count: 0,
        },
        ContainerStatusOut {
            name: "sidecar".into(),
            ready: true,
            state: ContainerState::Running,
            container_id: Some("id-sc".into()),
            restart_count: 2,
        },
    ];
    let status =
        build(&j(r#"{}"#), PodPhase::Running, &statuses, Some("10.0.0.1"));
    let arr = status["containerStatuses"].as_array().unwrap();
    assert_eq!(arr.len(), 2);
    assert_eq!(arr[0]["name"], "web");
    assert_eq!(arr[1]["name"], "sidecar");
    assert_eq!(arr[1]["restartCount"], 2);
    assert!(arr.iter().all(|c| c["state"]["running"].is_object()));
}

#[test]
fn build_pod_status_pending_with_waiting_container() {
    let statuses = vec![
        ContainerStatusOut {
            name: "web".into(),
            ready: true,
            state: ContainerState::Running,
            container_id: Some("id-web".into()),
            restart_count: 0,
        },
        ContainerStatusOut {
            name: "sidecar".into(),
            ready: false,
            state: ContainerState::creating(),
            container_id: None,
            restart_count: 0,
        },
    ];
    let status = build(&j(r#"{}"#), PodPhase::Pending, &statuses, None);
    assert_eq!(status["phase"], "Pending");
    assert_eq!(status["conditions"][0]["type"], "ContainersReady");
    assert_eq!(status["conditions"][0]["status"], "False");
    assert_eq!(status["conditions"][1]["type"], "Ready");
    assert_eq!(status["conditions"][1]["status"], "False");
    let arr = status["containerStatuses"].as_array().unwrap();
    assert_eq!(arr[1]["state"]["waiting"]["reason"], "ContainerCreating");
    assert!(arr[1].get("containerID").is_none());
}


fn svc(name: &str, namespace: &str, selector: Json) -> (ResourceKey, Json) {
    let key = ResourceKey::namespaced("", "v1", "Service", namespace, name);
    let value = Json::object()
        .with("apiVersion", Json::string("v1"))
        .with("kind", Json::string("Service"))
        .with("metadata", Json::object().with("name", Json::string(name)))
        .with("spec", Json::object().with("selector", selector));
    (key, value)
}

#[test]
fn a_service_maps_to_its_cluster_ip_not_its_pod() {
    let services = vec![(
        ResourceKey::namespaced("", "v1", "Service", "flux-system", "source-controller"),
        j(r#"{
            "metadata": {"name": "source-controller", "namespace": "flux-system"},
            "spec": {"clusterIP": "10.97.0.5",
                     "ports": [{"name":"http","port":80,"targetPort":"http"}]}
        }"#),
    )];
    let hosts = service_cluster_ip_hosts("flux-system", &services, "cluster.local");
    assert!(
        hosts
            .contains(&"source-controller.flux-system.svc.cluster.local:10.97.0.5".to_string()),
        "got: {hosts:?}"
    );
    assert!(
        hosts.contains(&"source-controller:10.97.0.5".to_string()),
        "got: {hosts:?}"
    );
}

#[test]
fn a_headless_service_is_left_to_the_alias_path() {
    let services = vec![(
        ResourceKey::namespaced("", "v1", "Service", "default", "headless"),
        j(r#"{
            "metadata": {"name": "headless", "namespace": "default"},
            "spec": {"clusterIP": "None"}
        }"#),
    )];
    assert!(
        service_cluster_ip_hosts("default", &services, "cluster.local").is_empty()
    );
}

#[test]
fn a_foreign_namespace_service_does_not_claim_the_bare_name() {
    let services = vec![(
        ResourceKey::namespaced("", "v1", "Service", "other", "api"),
        j(r#"{
            "metadata": {"name": "api", "namespace": "other"},
            "spec": {"clusterIP": "10.97.0.9"}
        }"#),
    )];
    let hosts = service_cluster_ip_hosts("default", &services, "cluster.local");
    assert!(
        hosts.contains(&"api.other:10.97.0.9".to_string()),
        "got: {hosts:?}"
    );
    assert!(hosts.contains(&"api.other.svc.cluster.local:10.97.0.9".to_string()));
    assert!(
        !hosts.contains(&"api:10.97.0.9".to_string()),
        "a foreign Service must not claim the bare name: {hosts:?}"
    );
}

#[test]
fn service_aliases_single_match_emits_three_forms_in_order() {
    let pod = j(r#"{"metadata": {"labels": {"app": "web"}}}"#);
    let services = vec![svc("web", "default", j(r#"{"app": "web"}"#))];
    let aliases = service_aliases_for_pod(&pod, "default", &services, "cluster.local");
    assert_eq!(
        aliases,
        vec![
            "web".to_string(),
            "web.default".to_string(),
            "web.default.svc.cluster.local".to_string(),
        ]
    );
}

#[test]
fn service_aliases_excludes_non_matching_selector() {
    let pod = j(r#"{"metadata": {"labels": {"app": "web"}}}"#);
    let services = vec![
        svc("web", "default", j(r#"{"app": "web"}"#)),
        svc("db", "default", j(r#"{"app": "db"}"#)),
    ];
    let aliases = service_aliases_for_pod(&pod, "default", &services, "cluster.local");
    assert_eq!(
        aliases,
        vec![
            "web".to_string(),
            "web.default".to_string(),
            "web.default.svc.cluster.local".to_string(),
        ]
    );
    assert!(
        !aliases.iter().any(|a| a.starts_with("db")),
        "db's aliases must be excluded: {aliases:?}"
    );
}

#[test]
fn service_aliases_multiple_matches_union_sorted_deduped() {
    let pod = j(r#"{"metadata": {"labels": {"app": "web", "tier": "web"}}}"#);
    let services = vec![
        svc("web", "default", j(r#"{"app": "web"}"#)),
        svc("frontend", "default", j(r#"{"tier": "web"}"#)),
    ];
    let aliases = service_aliases_for_pod(&pod, "default", &services, "cluster.local");
    assert_eq!(
        aliases,
        vec![
            "frontend".to_string(),
            "frontend.default".to_string(),
            "frontend.default.svc.cluster.local".to_string(),
            "web".to_string(),
            "web.default".to_string(),
            "web.default.svc.cluster.local".to_string(),
        ]
    );
}

#[test]
fn service_aliases_empty_selector_contributes_nothing() {
    let pod = j(r#"{"metadata": {"labels": {"app": "web"}}}"#);
    let services = vec![svc("web", "default", j(r#"{}"#))];
    let aliases = service_aliases_for_pod(&pod, "default", &services, "cluster.local");
    assert!(
        aliases.is_empty(),
        "empty selector → no aliases: {aliases:?}"
    );
}

#[test]
fn service_aliases_absent_selector_contributes_nothing() {
    let pod = j(r#"{"metadata": {"labels": {"app": "web"}}}"#);
    let key = ResourceKey::namespaced("", "v1", "Service", "default", "web");
    let value = j(r#"{
        "apiVersion": "v1", "kind": "Service",
        "metadata": { "name": "web" }, "spec": { "ports": [{ "port": 80 }] }
    }"#);
    let services = vec![(key, value)];
    let aliases = service_aliases_for_pod(&pod, "default", &services, "cluster.local");
    assert!(
        aliases.is_empty(),
        "absent selector → no aliases: {aliases:?}"
    );
}

#[test]
fn service_aliases_pod_without_labels_gets_none() {
    let pod = j(r#"{"metadata": {"name": "p"}}"#);
    let services = vec![svc("web", "default", j(r#"{"app": "web"}"#))];
    let aliases = service_aliases_for_pod(&pod, "default", &services, "cluster.local");
    assert!(
        aliases.is_empty(),
        "no labels → no Service matches: {aliases:?}"
    );
}

#[test]
fn service_aliases_threads_pod_namespace() {
    let pod = j(r#"{"metadata": {"labels": {"app": "web"}}}"#);
    let services = vec![svc("web", "prod", j(r#"{"app": "web"}"#))];
    let aliases = service_aliases_for_pod(&pod, "prod", &services, "cluster.local");
    assert_eq!(
        aliases,
        vec![
            "web".to_string(),
            "web.prod".to_string(),
            "web.prod.svc.cluster.local".to_string(),
        ]
    );
}

#[test]
fn service_aliases_threads_custom_cluster_domain() {
    let pod = j(r#"{"metadata": {"labels": {"app": "web"}}}"#);
    let services = vec![svc("web", "default", j(r#"{"app": "web"}"#))];
    let aliases =
        service_aliases_for_pod(&pod, "default", &services, "engenho.internal");
    assert_eq!(
        aliases,
        vec![
            "web".to_string(),
            "web.default".to_string(),
            "web.default.svc.engenho.internal".to_string(),
        ]
    );
}

#[test]
fn service_aliases_default_cluster_domain_is_cluster_local() {
    let pod = j(r#"{"metadata": {"labels": {"app": "web"}}}"#);
    let services = vec![svc("web", "default", j(r#"{"app": "web"}"#))];
    let aliases =
        service_aliases_for_pod(&pod, "default", &services, DEFAULT_CLUSTER_DOMAIN);
    assert!(aliases.contains(&"web.default.svc.cluster.local".to_string()));
}

#[test]
fn a_resource_without_a_container_name_is_of_the_container_itself() {
    let pod = j(r#"{"spec": {
        "initContainers": [{"name": "a", "image": "i",
            "resources": {"limits": {"memory": "1Ki"}},
            "env": [{"name": "M", "valueFrom": {"resourceFieldRef": {"resource": "limits.memory"}}}]}],
        "containers": [{"name": "a", "image": "i",
            "resources": {"limits": {"memory": "2Ki"}},
            "env": [{"name": "M", "valueFrom": {"resourceFieldRef": {"resource": "limits.memory"}}}]},
            {"image": "i",
            "resources": {"limits": {"memory": "3Ki"}},
            "env": [{"name": "M", "valueFrom": {"resourceFieldRef": {"resource": "limits.memory"}}},
                {"name": "A", "valueFrom": {"resourceFieldRef": {
                    "containerName": "a", "resource": "limits.memory"}}}]}]
    }}"#);
    let sources = EnvSources::new();
    let init = pod_to_init_container_specs("ns", "p", &pod, &sources).unwrap();
    assert_eq!(init[0].1.env.get("M").unwrap(), "1024");
    let app = pod_to_container_specs("ns", "p", &pod, &sources).unwrap();
    assert_eq!(app[0].1.env.get("M").unwrap(), "2048");
    assert_eq!(app[1].0, "container-1");
    assert_eq!(app[1].1.env.get("M").unwrap(), "3072");
    assert_eq!(app[1].1.env.get("A").unwrap(), "2048");
}
