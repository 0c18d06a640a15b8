use base64::Engine as _;
use engenho_kubelet::env_ref::expand_env_refs;
use engenho_kubelet::error::KubeletError;
use engenho_kubelet::json::Json;
use engenho_kubelet::pod_env::{
    env_refs, resolve_env_entry, source_key, EnvSources, SourceKind,
};
use engenho_kubelet::table::Table;
use serde_json::Value;

fn from_value(v: &Value) -> Json {
    match v {
        Value::Null => Json::Null,
        Value::Bool(b) => Json::Bool(*b),
        Value::Number(n) => match n.as_i64() {
            Some(i) => Json::Int(i as i128),
            None => Json::Decimal(n.to_string()),
        },
        Value::String(s) => Json::string(s),
        Value::Array(items) => Json::array(items.iter().map(from_value).collect()),
        Value::Object(fields) => {
            let mut out = Json::object();
            for (k, x) in fields {
                out.set(k, from_value(x));
            }
            out
        }
    }
}

fn j(text: &str) -> Json {
    from_value(&serde_json::from_str(text).expect("JSON"))
}

fn pod() -> Json {
    j(r#"{
        "metadata": { "name": "pangea-operator-abc", "namespace": "pangea-system",
                      "uid": "11111111-2222-3333-4444-555555555555" },
        "spec": { "nodeName": "cid", "serviceAccountName": "pangea-operator" },
        "status": { "podIP": "10.42.0.7", "hostIP": "192.168.1.10" }
    }"#)
}

#[test]
fn a_dollar_paren_reference_expands_from_an_earlier_variable() {
    let mut defined: Table<String> = Table::new();
    defined.insert("RUNTIME_NAMESPACE", "flux-system".to_string());
    assert_eq!(
        expand_env_refs(
            "http://source-controller.$(RUNTIME_NAMESPACE).svc.cluster.local.",
            &defined
        ),
        "http://source-controller.flux-system.svc.cluster.local."
    );
}

#[test]
fn a_doubled_dollar_is_an_escape_not_a_reference() {
    let defined: Table<String> = Table::new();
    assert_eq!(
        expand_env_refs("cost is $$5", &defined),
        "cost is $5"
    );
    assert_eq!(
        expand_env_refs("$$(NOT_A_REF)", &defined),
        "$(NOT_A_REF)"
    );
}

#[test]
fn an_unresolvable_reference_is_left_verbatim_never_blanked() {
    let defined: Table<String> = Table::new();
    assert_eq!(
        expand_env_refs("host.$(MISSING).local", &defined),
        "host.$(MISSING).local"
    );
}

#[test]
fn a_bare_dollar_is_not_a_reference() {
    let defined: Table<String> = Table::new();
    assert_eq!(expand_env_refs("100$", &defined), "100$");
    assert_eq!(
        expand_env_refs("$(unclosed", &defined),
        "$(unclosed"
    );
    assert_eq!(expand_env_refs("a $ b", &defined), "a $ b");
}

#[test]
fn multibyte_text_is_not_corrupted() {
    let mut defined: Table<String> = Table::new();
    defined.insert("NS", "café".to_string());
    assert_eq!(
        expand_env_refs("日本語-$(NS)-日本語", &defined),
        "日本語-café-日本語"
    );
}

#[test]
fn expansion_is_single_pass() {
    let mut defined: Table<String> = Table::new();
    defined.insert("A", "$(B)".to_string());
    defined.insert("B", "final".to_string());
    assert_eq!(expand_env_refs("$(A)", &defined), "$(B)");
    assert_eq!(
        expand_env_refs("$(A)/$(B)", &defined),
        "$(B)/final"
    );
}

fn resolve(entry: Json) -> Result<(String, String), KubeletError> {
    let sources = EnvSources::new();
    resolve_env_entry(
        "pangea-system",
        "pangea-operator-abc",
        &pod(),
        "main",
        &entry,
        &sources,
    )
}

fn pod_with_resources() -> Json {
    j(r#"{
        "metadata": { "name": "helm-controller-1", "namespace": "flux-system" },
        "spec": { "containers": [ {
            "name": "manager",
            "image": "ghcr.io/fluxcd/helm-controller:v1.4.5",
            "resources": {
                "limits": { "cpu": "1", "memory": "1Gi" },
                "requests": { "cpu": "500m", "memory": "64Mi" }
            }
        } ] }
    }"#)
}

fn resolve_in(
    pod: &Json,
    container: &str,
    entry: Json,
) -> Result<(String, String), KubeletError> {
    let sources = EnvSources::new();
    resolve_env_entry(
        "flux-system",
        "helm-controller-1",
        pod,
        container,
        &entry,
        &sources,
    )
}

#[test]
fn gomemlimit_from_limits_memory_resolves_in_bytes() {
    assert_eq!(
        resolve_in(
            &pod_with_resources(),
            "manager",
            j(r#"{
                "name": "GOMEMLIMIT",
                "valueFrom": { "resourceFieldRef": {
                    "containerName": "manager", "resource": "limits.memory"
                } }
            }"#)
        )
        .unwrap(),
        ("GOMEMLIMIT".to_string(), "1073741824".to_string()),
        "1Gi must render as BYTES — a Go runtime acts on this number"
    );
}

#[test]
fn an_omitted_container_name_means_the_enclosing_container() {
    assert_eq!(
        resolve_in(
            &pod_with_resources(),
            "manager",
            j(r#"{
                "name": "GOMEMLIMIT",
                "valueFrom": { "resourceFieldRef": { "resource": "limits.memory" } }
            }"#)
        )
        .unwrap()
        .1,
        "1073741824"
    );
}

#[test]
fn cpu_is_reported_in_whole_cores_rounded_up() {
    assert_eq!(
        resolve_in(
            &pod_with_resources(),
            "manager",
            j(r#"{
                "name": "GOMAXPROCS",
                "valueFrom": { "resourceFieldRef": { "resource": "requests.cpu" } }
            }"#)
        )
        .unwrap()
        .1,
        "1",
        "500m must round UP to 1 core, never down to 0"
    );
}

#[test]
fn a_divisor_scales_in_the_resources_unit() {
    assert_eq!(
        resolve_in(
            &pod_with_resources(),
            "manager",
            j(r#"{
                "name": "MEM_MI",
                "valueFrom": { "resourceFieldRef": {
                    "resource": "limits.memory", "divisor": "1Mi"
                } }
            }"#)
        )
        .unwrap()
        .1,
        "1024"
    );
}

#[test]
fn an_undeclared_resource_refuses_rather_than_substituting() {
    let err = resolve_in(
        &pod_with_resources(),
        "manager",
        j(r#"{
            "name": "EPH",
            "valueFrom": { "resourceFieldRef": {
                "resource": "limits.ephemeral-storage"
            } }
        }"#),
    )
    .expect_err("must not invent a value");
    assert!(err.to_text().contains("declares none"), "{err:?}");
}

#[test]
fn downward_api_entries_no_longer_vanish() {
    for (path, expected) in [
        ("metadata.name", "pangea-operator-abc"),
        ("metadata.namespace", "pangea-system"),
        ("metadata.uid", "11111111-2222-3333-4444-555555555555"),
        ("spec.nodeName", "cid"),
        ("spec.serviceAccountName", "pangea-operator"),
        ("status.podIP", "10.42.0.7"),
        ("status.hostIP", "192.168.1.10"),
    ] {
        let (k, v) = resolve(j(&format!(
            r#"{{"name": "VAR", "valueFrom": {{ "fieldRef": {{ "fieldPath": "{path}" }} }} }}"#
        )))
        .unwrap_or_else(|e| panic!("{path} must resolve, got {e:?}"));
        assert_eq!(k, "VAR");
        assert_eq!(v, expected, "wrong value for {path}");
    }
}

#[test]
fn a_literal_value_is_passed_through() {
    assert_eq!(
        resolve(j(r#"{ "name": "LOG_LEVEL", "value": "debug" }"#)).unwrap(),
        ("LOG_LEVEL".to_string(), "debug".to_string())
    );
}

#[test]
fn a_bare_name_is_the_empty_string_not_an_omission() {
    assert_eq!(
        resolve(j(r#"{ "name": "EMPTY" }"#)).unwrap(),
        ("EMPTY".to_string(), String::new())
    );
}

#[test]
fn an_unsupported_source_refuses_and_names_itself() {
    let err = resolve(j(r#"{
        "name": "CPU_LIMIT",
        "valueFrom": { "someFutureRef": { "resource": "limits.cpu" } }
    }"#))
    .expect_err("an unresolvable source must not be silently dropped");
    let msg = err.to_text();
    assert!(
        msg.contains("not supported yet"),
        "error must say the source is unsupported: {msg}"
    );
    assert!(
        msg.contains("CPU_LIMIT"),
        "error must name the variable: {msg}"
    );
    assert!(
        msg.contains("someFutureRef"),
        "error must name the source: {msg}"
    );
}

#[test]
fn every_source_that_is_not_known_is_named() {
    let two = resolve(j(r#"{"name": "A", "valueFrom": {"zRef": {}, "aRef": {}}}"#)).unwrap_err();
    assert!(two.to_text().contains("env A: valueFrom.aRef, zRef source is not supported yet"));
    for from in ["{}", "null", "7"] {
        let entry = j(&format!(r#"{{"name": "A", "valueFrom": {from}}}"#));
        let e = resolve(entry).unwrap_err().to_text();
        assert!(e.contains("env A: valueFrom.unknown source is not supported yet"), "{e}");
    }
}

#[test]
fn references_are_replaced_one_by_one() {
    let mut defined = Table::new();
    defined.insert("A", "1".to_string());
    assert_eq!(expand_env_refs("$(A)-$(B)-$(A)", &defined), "1-$(B)-1");
    assert_eq!(expand_env_refs("$$(A)", &defined), "$(A)");
    assert_eq!(expand_env_refs("$$$(A)", &defined), "$1");
    assert_eq!(expand_env_refs("$$$$", &defined), "$$");
}

#[test]
fn a_secret_key_ref_resolves_when_prefetched() {
    let enc = base64::engine::general_purpose::STANDARD.encode("hunter2");
    let mut sources = EnvSources::new();
    sources.secrets.insert(
        "pg-app",
        Json::object().with("data", Json::object().with("password", Json::string(&enc))),
    );
    let (k, v) = resolve_env_entry(
        "pangea-system",
        "pangea-operator-abc",
        &pod(),
        "main",
        &j(r#"{
            "name": "PGPASSWORD",
            "valueFrom": { "secretKeyRef": { "name": "pg-app", "key": "password" } }
        }"#),
        &sources,
    )
    .unwrap();
    assert_eq!(k, "PGPASSWORD");
    assert_eq!(v, "hunter2");
}

#[test]
fn a_config_map_key_ref_resolves_when_prefetched() {
    let mut sources = EnvSources::new();
    sources.config_maps.insert(
        "app-cfg",
        j(r#"{ "data": { "level": "debug" } }"#),
    );
    let (k, v) = resolve_env_entry(
        "pangea-system",
        "pangea-operator-abc",
        &pod(),
        "main",
        &j(r#"{
            "name": "LOG_LEVEL",
            "valueFrom": { "configMapKeyRef": { "name": "app-cfg", "key": "level" } }
        }"#),
        &sources,
    )
    .unwrap();
    assert_eq!(k, "LOG_LEVEL");
    assert_eq!(v, "debug");
}

#[test]
fn a_missing_secret_is_a_typed_invalid_pod() {
    let err = resolve(j(r#"{
        "name": "PGPASSWORD",
        "valueFrom": { "secretKeyRef": { "name": "pg-app", "key": "password" } }
    }"#))
    .expect_err("a missing non-optional Secret must fail loudly");
    let msg = err.to_text();
    assert!(msg.contains("Secret"), "error must name the kind: {msg}");
    assert!(msg.contains("pg-app"), "error must name the object: {msg}");
}

#[test]
fn an_optional_missing_secret_resolves_empty() {
    let (k, v) = resolve(j(r#"{
        "name": "PGPASSWORD",
        "valueFrom": { "secretKeyRef": {
            "name": "pg-app",
            "key": "password",
            "optional": true
        } }
    }"#))
    .expect("an optional missing Secret is not an error");
    assert_eq!(k, "PGPASSWORD");
    assert_eq!(v, "");
}

#[test]
fn an_unknown_fieldref_path_refuses_and_lists_the_supported_set() {
    let err = resolve(j(r#"{
        "name": "WAT", "valueFrom": { "fieldRef": { "fieldPath": "spec.hostNetwork" } }
    }"#))
    .expect_err("an unknown fieldPath must not resolve to empty");
    let msg = err.to_text();
    assert!(
        msg.contains("spec.hostNetwork"),
        "must name the bad path: {msg}"
    );
    assert!(
        msg.contains("metadata.name"),
        "must list the supported set: {msg}"
    );
}

#[test]
fn a_known_but_unpopulated_path_resolves_empty() {
    let bare = j(r#"{ "metadata": { "name": "p", "namespace": "n" } }"#);
    let sources = EnvSources::new();
    let (_, v) = resolve_env_entry(
        "n",
        "p",
        &bare,
        "main",
        &j(r#"{ "name": "POD_IP", "valueFrom": { "fieldRef": { "fieldPath": "status.podIP" } } }"#),
        &sources,
    )
    .expect("a known-but-unset path is not an error");
    assert_eq!(v, "");
}

#[test]
fn a_secret_that_is_no_base64_or_no_text_is_refused() {
    for data in ["not base64!", "/w=="] {
        let mut sources = EnvSources::new();
        sources.secrets.insert(
            "s",
            Json::object().with("data", Json::object().with("k", Json::string(data))),
        );
        let e = resolve_env_entry(
            "n",
            "p",
            &pod(),
            "main",
            &j(r#"{"name": "V", "valueFrom": {"secretKeyRef": {"name": "s", "key": "k"}}}"#),
            &sources,
        )
        .unwrap_err();
        assert_eq!(e.kind(), "invalid_pod");
        assert!(e.to_text().contains('k'), "{e:?}");
    }
}

#[test]
fn the_sources_of_a_pod_are_listed_once_and_in_order() {
    let p = j(r#"{"spec": {
        "containers": [{"env": [
            {"name": "A", "valueFrom": {"secretKeyRef": {"name": "z", "key": "k"}}},
            {"name": "B", "valueFrom": {"secretKeyRef": {"name": "a", "key": "k"}}}
        ]}],
        "initContainers": [{"env": [
            {"name": "C", "valueFrom": {"secretKeyRef": {"name": "z", "key": "q"}}},
            {"name": "D", "valueFrom": {"configMapKeyRef": {"name": "c", "key": "q"}}}
        ]}]
    }}"#);
    assert_eq!(env_refs(&p, SourceKind::Secret), vec!["a", "z"]);
    assert_eq!(env_refs(&p, SourceKind::ConfigMap), vec!["c"]);
    let k = source_key(SourceKind::Secret, "ns", "a");
    assert_eq!((k.kind.as_str(), k.label().as_str()), ("Secret", "ns/a"));
}

#[test]
fn a_missing_name_is_quoted_as_it_was_written() {
    let e = resolve(j(
        r#"{"name": "V", "valueFrom": {"fieldRef": {"fieldPath": "a\"b"}}}"#,
    ))
    .unwrap_err();
    assert!(e.to_text().contains("\\\"b"), "{e:?}");
}
