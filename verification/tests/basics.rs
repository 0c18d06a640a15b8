use engenho_kubelet::backend::PodmanBackend;
use engenho_kubelet::conditions::other_conditions;
use engenho_kubelet::json::Json;
use engenho_kubelet::keyed::KeyTable;
use engenho_kubelet::lifecycle::{InitAction, Termination};
use engenho_kubelet::number::{decimal_i64, hex8_u64, parse_digits, parse_i32, parse_i64};
use engenho_kubelet::paths::{is_below, join, parent, same_path};
use engenho_kubelet::quantity::{parse_quantity, QuantityUnit, ResourceBound, Resources};
use engenho_kubelet::resource::ResourceKey;
use engenho_kubelet::scan::{lines, split, split_once, tail_lines, trim};
use engenho_kubelet::table::Table;

#[test]
fn numbers_are_written_and_read() {
    assert_eq!(decimal_i64(-120), "-120");
    assert_eq!(hex8_u64(0xab), "000000ab");
    assert_eq!(hex8_u64(0x1_0000_0000), "100000000");
    assert_eq!(parse_i64("-7"), Some(-7));
    assert_eq!(parse_i32("2147483648"), None);
    assert_eq!(parse_i32("+5"), Some(5));
    assert_eq!(parse_digits("18446744073709551615"), Some(u64::MAX));
    assert_eq!(parse_digits("18446744073709551616"), None);
    assert_eq!(parse_digits(""), None);
}

#[test]
fn quantities_are_read_in_their_unit_and_rounded_up() {
    assert_eq!(parse_quantity("500m", QuantityUnit::MilliCores), Some(500));
    assert_eq!(parse_quantity("1", QuantityUnit::MilliCores), Some(1000));
    assert_eq!(parse_quantity("1.5", QuantityUnit::MilliCores), Some(1500));
    assert_eq!(parse_quantity("1Gi", QuantityUnit::Bytes), Some(1 << 30));
    assert_eq!(parse_quantity("64Mi", QuantityUnit::Bytes), Some(64 << 20));
    assert_eq!(parse_quantity("1M", QuantityUnit::Bytes), Some(1_000_000));
    assert_eq!(parse_quantity("1m", QuantityUnit::Bytes), Some(1));
    assert_eq!(parse_quantity("x", QuantityUnit::Bytes), None);
    assert_eq!(parse_quantity("", QuantityUnit::Bytes), None);
}

#[test]
fn resources_tell_what_is_set_from_what_is_wrong() {
    let c = Json::object().with(
        "resources",
        Json::object().with(
            "limits",
            Json::object().with("cpu", Json::string("2")).with("memory", Json::string("lots")),
        ),
    );
    let r = Resources::from_container_json(&c);
    assert_eq!(r.cpu_limit_milli, ResourceBound::Amount(2000));
    assert_eq!(r.cpu_request_milli, ResourceBound::Unset);
    assert_eq!(r.memory_limit_bytes, ResourceBound::Unparseable("lots".into()));
    assert!(Resources::default().is_unset());
}

#[test]
fn paths_are_joined_and_told_apart() {
    assert_eq!(join("/a", "b"), "/a/b");
    assert_eq!(join("/a/", "b"), "/a/b");
    assert_eq!(join("/a", "/b"), "/b");
    assert!(same_path("/a//b/", "/a/b"));
    assert!(is_below("/nix/store/x", "/nix/store"));
    assert!(!is_below("/nix/stores", "/nix/store"));
    assert_eq!(parent("/a/b"), Some("/a".to_string()));
}

#[test]
fn texts_are_taken_apart() {
    assert_eq!(split("a,b,", ','), vec!["a", "b", ""]);
    assert_eq!(split_once("k=v=w", '='), Some(("k".to_string(), "v=w".to_string())));
    assert_eq!(trim(" \t x\n"), "x");
    assert_eq!(lines("a\r\nb\n"), vec!["a", "b"]);
    assert_eq!(tail_lines("a\nb\nc\n", 2).lines().collect::<Vec<_>>(), vec!["b", "c"]);
}

#[test]
fn a_value_is_found_by_its_pointer() {
    let v = Json::object().with(
        "a/b",
        Json::array(vec![Json::Null, Json::object().with("~", Json::Int(7))]),
    );
    assert_eq!(v.pointer("/a~1b/1/~0").unwrap().as_i64(), Some(7));
    assert!(v.pointer("/a~1b/01").is_none());
    assert!(v.pointer("a").is_none());
    assert!(v.pointer("").is_some());
}

#[test]
fn a_later_field_replaces_an_earlier_one() {
    let v = Json::object().with("k", Json::string("a")).with("k", Json::string("b"));
    assert_eq!(v.str_at("k"), Some("b"));
    assert_eq!(v.to_json(), "{\"k\":\"b\"}");
    assert_eq!(v.keys(), Some(vec!["k".to_string()]));
}

#[test]
fn tables_keep_their_keys_in_order() {
    let mut t: Table<u8> = Table::new();
    assert!(t.is_empty());
    t.insert("b", 1);
    t.insert("a", 2);
    t.insert("b", 3);
    assert_eq!(t.keys(), vec!["a", "b"]);
    assert_eq!(t.get("b"), Some(&3));
    assert_eq!(t.take("b"), Some(3));
    t.remove("a");
    assert!(t.is_empty());
}

#[test]
fn objects_are_kept_in_the_order_of_their_keys() {
    let mut t: KeyTable<u8> = KeyTable::new();
    let b = ResourceKey::namespaced("", "v1", "Pod", "b", "x");
    let a = ResourceKey::namespaced("", "v1", "Pod", "a", "y");
    let node = ResourceKey::cluster_scoped("", "v1", "Node", "n");
    t.insert(&b, 1);
    t.insert(&a, 2);
    t.insert(&node, 3);
    let names: Vec<String> = t.keys().iter().map(|k| k.label()).collect();
    assert_eq!(names, vec!["n", "a/y", "b/x"]);
    assert_eq!(t.take(&a), Some(2));
    assert!(!t.contains_key(&a) && t.contains_key(&b));
}

#[test]
fn conditions_of_others_are_kept_as_they_stand() {
    let list = vec![
        Json::object().with("type", Json::string("Ready")),
        Json::object().with("type", Json::string("Other")).with("x", Json::Bool(true)),
    ];
    let kept = other_conditions(Some(&list), &["Ready"]);
    assert_eq!(kept.len(), 1);
    assert_eq!(kept[0].get("x").unwrap().as_bool(), Some(true));
    assert!(other_conditions(None, &["Ready"]).is_empty());
}

#[test]
fn the_credentials_file_of_a_registry_is_kept() {
    let b = PodmanBackend::new();
    assert_eq!(b.registry_auth_file, None);
    let b = b.with_registry_auth_file("/etc/auth.json");
    assert_eq!(b.registry_auth_file.as_deref(), Some("/etc/auth.json"));
    assert_eq!(b.binary, PodmanBackend::new().binary);
}

#[test]
fn an_init_action_that_failed_is_told_from_one_that_waits() {
    let failed = InitAction::InitFailed { index: 0, exit: Termination::Unknown };
    assert!(failed.is_failed() && !failed.is_complete());
    let waits = InitAction::AwaitInit { start: vec![0], blocked_on: Some(0) };
    assert!(!waits.is_failed() && !waits.is_complete());
    assert!(!InitAction::Complete.is_failed() && InitAction::Complete.is_complete());
}
