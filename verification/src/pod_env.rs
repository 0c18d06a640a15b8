//! The variables of a container: where the manifest takes their values from.

use vstd::prelude::*;
use crate::error::{self, KubeletError};
use crate::json::{self, Doc, Json};
use crate::number::{self, decimal_i128, decimal_i64};
use crate::quantity::{self, QuantityUnit, ResourceBound};
use crate::resource::{self, ResourceKey};
use crate::scan::{self, glue, split_once};
use crate::table::Table;
use crate::text::{
    self,
    cat2,
    cat3,
    cat5,
    cat6,
    cat7,
    cat8,
    debug_of,
    decode_base64,
    decode_exact,
    insert_ascending,
    same,
};

verus! {

/// The objects that variables take their values from, by name, as far as they were found.
pub struct EnvSources {
    pub secrets: Table<Json>,
    pub config_maps: Table<Json>,
}

/// What an `EnvSources` stands for.
#[verifier::ext_equal]
pub struct SourcesView {
    pub secrets: Map<Seq<char>, Doc>,
    pub config_maps: Map<Seq<char>, Doc>,
}

impl View for EnvSources {
    type V = SourcesView;

    open spec fn view(&self) -> SourcesView {
        SourcesView {
            secrets: self.secrets@.map_values(|v: Json| v@),
            config_maps: self.config_maps@.map_values(|v: Json| v@),
        }
    }
}

impl EnvSources {
    /// No objects.
    pub fn new() -> (r: EnvSources)
        ensures
            r@ == (SourcesView { secrets: Map::empty(), config_maps: Map::empty() }),
    {
        let r = EnvSources { secrets: Table::new(), config_maps: Table::new() };
        assert(r@.secrets =~= Map::<Seq<char>, Doc>::empty());
        assert(r@.config_maps =~= Map::<Seq<char>, Doc>::empty());
        r
    }
}

/// The pod of an error.
pub open spec fn pod_label(namespace: Seq<char>, name: Seq<char>) -> Seq<char> {
    namespace + "/"@ + name
}

/// Refuses a pod for this reason.
pub fn refuse(namespace: &str, name: &str, reason: String) -> (r: KubeletError)
    ensures
        error::invalid_pod(r, pod_label(namespace@, name@), reason@),
{
    KubeletError::InvalidPod { pod: cat3(namespace, "/", name), reason }
}

/// The text, or nothing where there is none.
pub open spec fn or_empty(s: Option<Seq<char>>) -> Seq<char> {
    match s {
        Some(t) => t,
        None => Seq::empty(),
    }
}

fn text_or_empty(s: Option<&str>) -> (r: String)
    ensures
        r@ == or_empty(crate::lifecycle::opt_text(s)),
{
    match s {
        Some(t) => t.to_owned(),
        None => String::new(),
    }
}

// ---- fields of the pod ---------------------------------------------------------------------

/// The value of a field of the pod, where it is one that a variable may take. One that is not set
/// yet is empty.
pub open spec fn field_value(
    path: Seq<char>,
    namespace: Seq<char>,
    pod_name: Seq<char>,
    pod: Doc,
) -> Option<Seq<char>> {
    if path == "metadata.name"@ {
        Some(pod_name)
    } else if path == "metadata.namespace"@ {
        Some(namespace)
    } else if path == "metadata.uid"@ {
        Some(or_empty(pod.str_at2("metadata"@, "uid"@)))
    } else if path == "spec.nodeName"@ {
        Some(or_empty(pod.str_at2("spec"@, "nodeName"@)))
    } else if path == "spec.serviceAccountName"@ {
        Some(or_empty(pod.str_at2("spec"@, "serviceAccountName"@)))
    } else if path == "status.podIP"@ {
        Some(or_empty(pod.str_at2("status"@, "podIP"@)))
    } else if path == "status.hostIP"@ {
        Some(or_empty(pod.str_at2("status"@, "hostIP"@)))
    } else {
        None
    }
}

fn field_of(path: &str, namespace: &str, pod_name: &str, pod: &Json) -> (r: Option<String>)
    ensures
        crate::lifecycle::opt_string(r) == field_value(path@, namespace@, pod_name@, pod@),
{
    if same(path, "metadata.name") {
        Some(pod_name.to_owned())
    } else if same(path, "metadata.namespace") {
        Some(namespace.to_owned())
    } else if same(path, "metadata.uid") {
        Some(text_or_empty(pod.str_at2("metadata", "uid")))
    } else if same(path, "spec.nodeName") {
        Some(text_or_empty(pod.str_at2("spec", "nodeName")))
    } else if same(path, "spec.serviceAccountName") {
        Some(text_or_empty(pod.str_at2("spec", "serviceAccountName")))
    } else if same(path, "status.podIP") {
        Some(text_or_empty(pod.str_at2("status", "podIP")))
    } else if same(path, "status.hostIP") {
        Some(text_or_empty(pod.str_at2("status", "hostIP")))
    } else {
        None
    }
}

/// The value that `fieldRef` names, or why there is none.
pub open spec fn from_field(
    key: Seq<char>,
    field_ref: Doc,
    namespace: Seq<char>,
    pod_name: Seq<char>,
    pod: Doc,
) -> Result<Seq<char>, Seq<char>> {
    match field_ref.str_at("fieldPath"@) {
        None => Err("env "@ + key + ": fieldRef has no fieldPath"@),
        Some(path) => match field_value(path, namespace, pod_name, pod) {
            Some(v) => Ok(v),
            None => Err(
                "env "@ + key + ": unsupported fieldRef path "@ + text::debug_text(path)
                    + " (supported: metadata.name, metadata.namespace, metadata.uid, spec.nodeName, spec.serviceAccountName, status.podIP, status.hostIP)"@,
            ),
        },
    }
}

fn read_field(key: &str, field_ref: &Json, namespace: &str, pod_name: &str, pod: &Json) -> (r:
    Result<String, String>)
    ensures
        agrees(r, from_field(key@, field_ref@, namespace@, pod_name@, pod@)),
{
    match field_ref.str_at("fieldPath") {
        None => Err(cat3("env ", key, ": fieldRef has no fieldPath")),
        Some(path) => match field_of(path, namespace, pod_name, pod) {
            Some(v) => Ok(v),
            None => Err(
                cat5(
                    "env ",
                    key,
                    ": unsupported fieldRef path ",
                    debug_of(path).as_str(),
                    " (supported: metadata.name, metadata.namespace, metadata.uid, spec.nodeName, spec.serviceAccountName, status.podIP, status.hostIP)",
                ),
            ),
        },
    }
}

/// Whether a result is what its model says.
pub open spec fn agrees(r: Result<String, String>, d: Result<Seq<char>, Seq<char>>) -> bool {
    match r {
        Ok(v) => d == Ok::<Seq<char>, Seq<char>>(v@),
        Err(e) => d == Err::<Seq<char>, Seq<char>>(e@),
    }
}

// ---- secrets and config maps ---------------------------------------------------------------

/// The kinds of objects that variables take their values from.
#[derive(Clone, Copy, Debug, PartialEq, Eq, Structural)]
pub enum SourceKind {
    Secret,
    ConfigMap,
}

/// The field that refers to an object of this kind.
pub open spec fn ref_field(k: SourceKind) -> Seq<char> {
    match k {
        SourceKind::Secret => "secretKeyRef"@,
        SourceKind::ConfigMap => "configMapKeyRef"@,
    }
}

/// The name of a kind of objects.
pub open spec fn kind_name(k: SourceKind) -> Seq<char> {
    match k {
        SourceKind::Secret => "Secret"@,
        SourceKind::ConfigMap => "ConfigMap"@,
    }
}

impl SourceKind {
    /// The field that refers to an object of this kind.
    pub fn ref_field(self) -> (r: &'static str)
        ensures
            r@ == ref_field(self),
    {
        match self {
            SourceKind::Secret => "secretKeyRef",
            SourceKind::ConfigMap => "configMapKeyRef",
        }
    }

    /// The name of the kind.
    pub fn name(self) -> (r: &'static str)
        ensures
            r@ == kind_name(self),
    {
        match self {
            SourceKind::Secret => "Secret",
            SourceKind::ConfigMap => "ConfigMap",
        }
    }
}

/// The value that the text of a secret stands for, or why it stands for none. `at` says which
/// text it is.
pub open spec fn decoded(
    key: Seq<char>,
    at: Seq<char>,
    bytes: Result<Seq<u8>, Seq<char>>,
) -> Result<Seq<char>, Seq<char>> {
    match bytes {
        Err(e) => Err("env "@ + key + ": Secret "@ + at + " not base64: "@ + e),
        Ok(b) => if vstd::utf8::valid_utf8(b) {
            Ok(vstd::utf8::decode_utf8(b))
        } else {
            Err("env "@ + key + ": Secret "@ + at + " not utf-8: "@ + text::utf8_complaint(b))
        },
    }
}

/// The value that the text of a secret stands for, where base64 decoded it to this.
pub fn secret_value(key: &str, at: &str, bytes: Result<Vec<u8>, String>) -> (r: Result<
    String,
    String,
>)
    ensures
        agrees(
            r,
            decoded(
                key@,
                at@,
                match bytes {
                    Ok(b) => Ok::<Seq<u8>, Seq<char>>(b@),
                    Err(e) => Err::<Seq<u8>, Seq<char>>(e@),
                },
            ),
        ),
{
    match bytes {
        Err(e) => Err(cat6("env ", key, ": Secret ", at, " not base64: ", e.as_str())),
        Ok(b) => match decode_exact(b) {
            Ok(s) => Ok(s),
            Err(e) => Err(cat6("env ", key, ": Secret ", at, " not utf-8: ", e.as_str())),
        },
    }
}

/// The value that a reference to a key of an object names, or why there is none.
pub open spec fn from_object(
    key: Seq<char>,
    kind: SourceKind,
    krf: Doc,
    namespace: Seq<char>,
    objects: Map<Seq<char>, Doc>,
) -> Result<Seq<char>, Seq<char>> {
    match krf.str_at("name"@) {
        None => Err("env "@ + key + ": valueFrom."@ + ref_field(kind) + ".name missing"@),
        Some(name) => match krf.str_at("key"@) {
            None => Err("env "@ + key + ": valueFrom."@ + ref_field(kind) + ".key missing"@),
            Some(ref_key) => {
                let optional = krf.bool_at("optional"@) == Some(true);
                if !objects.dom().contains(name) {
                    if optional {
                        Ok(Seq::empty())
                    } else {
                        Err(
                            "env "@ + key + ": "@ + kind_name(kind) + " "@ + pod_label(
                                namespace,
                                name,
                            ) + " not found"@,
                        )
                    }
                } else {
                    match value_at(objects[name], ref_key) {
                        None => if optional {
                            Ok(Seq::empty())
                        } else {
                            Err(
                                "env "@ + key + ": "@ + kind_name(kind) + " "@ + pod_label(
                                    namespace,
                                    name,
                                ) + " has no key "@ + ref_key,
                            )
                        },
                        Some(s) => match kind {
                            SourceKind::ConfigMap => Ok(s),
                            SourceKind::Secret => decoded(
                                key,
                                pod_label(namespace, name) + "/"@ + ref_key,
                                text::base64_bytes(s),
                            ),
                        },
                    }
                }
            },
        },
    }
}

/// The text under a key of an object's data.
pub open spec fn value_at(object: Doc, key: Seq<char>) -> Option<Seq<char>> {
    match object.at("/data/"@ + key) {
        Some(d) => d.text(),
        None => None,
    }
}

fn read_object(
    key: &str,
    kind: SourceKind,
    krf: &Json,
    namespace: &str,
    objects: &Table<Json>,
) -> (r: Result<String, String>)
    ensures
        agrees(
            r,
            from_object(
                key@,
                kind,
                krf@,
                namespace@,
                objects@.map_values(|v: Json| v@),
            ),
        ),
{
    let name = match krf.str_at("name") {
        Some(n) => n,
        None => {
            return Err(cat5("env ", key, ": valueFrom.", kind.ref_field(), ".name missing"));
        },
    };
    let ref_key = match krf.str_at("key") {
        Some(k) => k,
        None => {
            return Err(cat5("env ", key, ": valueFrom.", kind.ref_field(), ".key missing"));
        },
    };
    let optional = match krf.get("optional") {
        Some(o) => match o.as_bool() {
            Some(b) => b,
            None => false,
        },
        None => false,
    };
    let place = cat3(namespace, "/", name);
    let object = match objects.get(name) {
        Some(o) => o,
        None => {
            if optional {
                return Ok(String::new());
            }
            return Err(
                cat7("env ", key, ": ", kind.name(), " ", place.as_str(), " not found"),
            );
        },
    };
    let value = match object.pointer(cat2("/data/", ref_key).as_str()) {
        Some(v) => v.as_str(),
        None => None,
    };
    match value {
        None => {
            if optional {
                return Ok(String::new());
            }
            Err(
                cat8(
                    "env ",
                    key,
                    ": ",
                    kind.name(),
                    " ",
                    place.as_str(),
                    " has no key ",
                    ref_key,
                ),
            )
        },
        Some(s) => match kind {
            SourceKind::ConfigMap => Ok(s.to_owned()),
            SourceKind::Secret => {
                let at = cat3(place.as_str(), "/", ref_key);
                secret_value(key, at.as_str(), decode_base64(s))
            },
        },
    }
}

// ---- resources of a container --------------------------------------------------------------

/// The first item of a list that has this name.
pub open spec fn named_in(items: Seq<Doc>, want: Seq<char>) -> Option<Doc>
    decreases items.len(),
{
    if items.len() == 0 {
        None
    } else if items[0].str_at("name"@) == Some(want) {
        Some(items[0])
    } else {
        named_in(items.skip(1), want)
    }
}

/// The container of this name: one of the containers, or else one of the init containers.
pub open spec fn container_named(pod: Doc, want: Seq<char>) -> Option<Doc> {
    let first = match pod.arr_at2("spec"@, "containers"@) {
        Some(list) => named_in(list, want),
        None => None,
    };
    match first {
        Some(c) => Some(c),
        None => match pod.arr_at2("spec"@, "initContainers"@) {
            Some(list) => named_in(list, want),
            None => None,
        },
    }
}

fn item_named<'a>(items: &'a Vec<Json>, want: &str) -> (r: Option<&'a Json>)
    ensures
        json::same_doc(r, named_in(json::docs(items@), want@)),
{
    let ghost all = json::docs(items@);
    let mut i: usize = 0;
    assert(all.skip(0) =~= all);
    while i < items.len()
        invariant
            i <= items@.len(),
            all == json::docs(items@),
            named_in(all, want@) == named_in(all.skip(i as int), want@),
        decreases items@.len() - i,
    {
        proof {
            json::docs_index(items@);
        }
        let c = &items[i];
        assert(all.skip(i as int)[0] == c@);
        assert(all.skip(i as int).skip(1) =~= all.skip(i + 1));
        if let Some(n) = c.str_at("name") {
            if same(n, want) {
                return Some(c);
            }
        }
        i += 1;
    }
    proof {
        json::docs_index(items@);
    }
    None
}

/// The container of this name: one of the containers, or else one of the init containers.
pub fn find_container_spec<'a>(pod: &'a Json, want: &str) -> (r: Option<&'a Json>)
    ensures
        json::same_doc(r, container_named(pod@, want@)),
{
    if let Some(list) = pod.arr_at2("spec", "containers") {
        if let Some(c) = item_named(list, want) {
            return Some(c);
        }
    }
    if let Some(list) = pod.arr_at2("spec", "initContainers") {
        return item_named(list, want);
    }
    None
}

/// The unit in which a resource is counted: processors in thousandths, all else in bytes.
pub open spec fn unit_of(field: Seq<char>) -> QuantityUnit {
    if field == "cpu"@ {
        QuantityUnit::MilliCores
    } else {
        QuantityUnit::Bytes
    }
}

/// The divisor that a reference gives, as it is written: `1` where it gives none.
pub open spec fn divisor_text(rref: Doc) -> Seq<char> {
    match rref.get("divisor"@) {
        Some(Doc::Str(s)) => if s.len() > 0 {
            s
        } else {
            "1"@
        },
        Some(Doc::Int(n)) => number::decimal(n),
        Some(Doc::Decimal(s)) => s,
        _ => "1"@,
    }
}

fn divisor_of(rref: &Json) -> (r: String)
    ensures
        r@ == divisor_text(rref@),
{
    match rref.get("divisor") {
        Some(d) => match d {
            Json::Str(s) => if s.as_str().is_empty() {
                "1".to_owned()
            } else {
                s.clone()
            },
            Json::Int(n) => decimal_i128(*n),
            Json::Decimal(s) => s.clone(),
            _ => "1".to_owned(),
        },
        None => "1".to_owned(),
    }
}

/// The value that `resourceFieldRef` names, or why there is none: the amount of a resource in
/// units of the divisor, rounded up.
pub open spec fn from_resource(
    key: Seq<char>,
    rref: Doc,
    pod: Doc,
    container: Seq<char>,
    own: Option<Doc>,
) -> Result<
    Seq<char>,
    Seq<char>,
> {
    match rref.str_at("resource"@) {
        None => Err("env "@ + key + ": resourceFieldRef has no resource"@),
        Some(resource) => {
            let (target, found) = match rref.str_at("containerName"@) {
                Some(c) => (c, container_named(pod, c)),
                None => (container, own),
            };
            match found {
                None => Err(
                    "env "@ + key + ": resourceFieldRef names container "@ + target
                        + ", which this pod does not declare"@,
                ),
                Some(cspec) => match scan::halves(resource, '.') {
                    None => Err(
                        "env "@ + key + ": resourceFieldRef resource "@ + text::debug_text(resource)
                            + " is not <limits|requests>.<resource>"@,
                    ),
                    Some((bucket, field)) => if bucket != "limits"@ && bucket != "requests"@ {
                        Err(
                            "env "@ + key + ": resourceFieldRef resource "@ + text::debug_text(
                                resource,
                            ) + " must start with limits. or requests."@,
                        )
                    } else {
                        from_amount(
                            key,
                            resource,
                            target,
                            quantity::bound_of(
                                cspec.get2("resources"@, bucket),
                                field,
                                unit_of(field),
                            ),
                            divisor_text(rref),
                            unit_of(field),
                        )
                    },
                },
            }
        },
    }
}

/// The value of a resource of which a container states this, in units of the divisor.
pub open spec fn from_amount(
    key: Seq<char>,
    resource: Seq<char>,
    target: Seq<char>,
    bound: quantity::BoundView,
    divisor: Seq<char>,
    unit: QuantityUnit,
) -> Result<Seq<char>, Seq<char>> {
    match bound {
        quantity::BoundView::Unset => Err(
            "env "@ + key + ": resourceFieldRef wants "@ + resource + " of container "@ + target
                + ", but it declares none — refusing rather than substituting a value the workload would act on"@,
        ),
        quantity::BoundView::Unparseable(s) => Err(
            "env "@ + key + ": "@ + resource + " of container "@ + target + " is "@
                + text::debug_text(s) + ", which is not a quantity this kubelet can parse"@,
        ),
        quantity::BoundView::Amount(n) => match quantity::quantity(divisor, unit) {
            Some(d) => if d > 0 {
                Ok(number::decimal(quantity::rounded_up(n, d)))
            } else {
                Err(
                    "env "@ + key + ": resourceFieldRef divisor "@ + text::debug_text(divisor)
                        + " is not a positive quantity"@,
                )
            },
            None => Err(
                "env "@ + key + ": resourceFieldRef divisor "@ + text::debug_text(divisor)
                    + " is not a positive quantity"@,
            ),
        },
    }
}

/// `amount / divisor`, rounded up.
fn rounded_up_i64(amount: i64, divisor: i64) -> (r: i64)
    requires
        amount >= 0,
        divisor > 0,
    ensures
        r == quantity::rounded_up(amount as int, divisor as int),
{
    let a: u64 = amount as u64;
    let d: u64 = divisor as u64;
    let q: u64 = a / d;
    let rest: u64 = a % d;
    assert(q <= a) by (nonlinear_arith)
        requires
            q == a / d,
            d > 0,
    ;
    if rest == 0 {
        q as i64
    } else {
        assert(d >= 2) by (nonlinear_arith)
            requires
                rest == a % d,
                rest != 0,
                d > 0,
        ;
        assert(q <= a / 2) by (nonlinear_arith)
            requires
                q == a / d,
                d >= 2,
        ;
        (q + 1) as i64
    }
}

fn read_resource(key: &str, rref: &Json, pod: &Json, container: &str, own: Option<&Json>) -> (r:
    Result<String, String>)
    ensures
        agrees(r, from_resource(key@, rref@, pod@, container@, crate::node_lease::doc_opt(own))),
{
    let resource = match rref.str_at("resource") {
        Some(s) => s,
        None => {
            return Err(cat3("env ", key, ": resourceFieldRef has no resource"));
        },
    };
    let (target, found): (&str, Option<&Json>) = match rref.str_at("containerName") {
        Some(c) => (c, find_container_spec(pod, c)),
        None => (container, own),
    };
    let cspec = match found {
        Some(c) => c,
        None => {
            return Err(
                cat5(
                    "env ",
                    key,
                    ": resourceFieldRef names container ",
                    target,
                    ", which this pod does not declare",
                ),
            );
        },
    };
    let (bucket, field) = match split_once(resource, '.') {
        Some(halves) => halves,
        None => {
            return Err(
                cat5(
                    "env ",
                    key,
                    ": resourceFieldRef resource ",
                    debug_of(resource).as_str(),
                    " is not <limits|requests>.<resource>",
                ),
            );
        },
    };
    if !same(bucket.as_str(), "limits") && !same(bucket.as_str(), "requests") {
        return Err(
            cat5(
                "env ",
                key,
                ": resourceFieldRef resource ",
                debug_of(resource).as_str(),
                " must start with limits. or requests.",
            ),
        );
    }
    let unit = if same(field.as_str(), "cpu") {
        QuantityUnit::MilliCores
    } else {
        QuantityUnit::Bytes
    };
    let stated = cspec.get2("resources", bucket.as_str());
    let bound = ResourceBound::read(stated, field.as_str(), unit);
    let amount = match bound {
        ResourceBound::Amount(n) => n,
        ResourceBound::Unset => {
            return Err(
                cat7(
                    "env ",
                    key,
                    ": resourceFieldRef wants ",
                    resource,
                    " of container ",
                    target,
                    ", but it declares none — refusing rather than substituting a value the workload would act on",
                ),
            );
        },
        ResourceBound::Unparseable(s) => {
            let found = cat8(
                "env ",
                key,
                ": ",
                resource,
                " of container ",
                target,
                " is ",
                debug_of(s.as_str()).as_str(),
            );
            return Err(
                cat2(found.as_str(), ", which is not a quantity this kubelet can parse"),
            );
        },
    };
    let raw = divisor_of(rref);
    let divisor: i64 = match ResourceBound::of_text(raw.as_str(), unit) {
        ResourceBound::Amount(n) => n,
        _ => 0,
    };
    if divisor <= 0 {
        return Err(
            cat5(
                "env ",
                key,
                ": resourceFieldRef divisor ",
                debug_of(raw.as_str()).as_str(),
                " is not a positive quantity",
            ),
        );
    }
    Ok(decimal_i64(rounded_up_i64(amount, divisor)))
}

// ---- one variable --------------------------------------------------------------------------

/// The name and the value of a variable of the container of this name, or why it has none.
pub open spec fn env_entry(
    namespace: Seq<char>,
    pod_name: Seq<char>,
    pod: Doc,
    container: Seq<char>,
    entry: Doc,
    sources: SourcesView,
) -> Result<(Seq<char>, Seq<char>), Seq<char>> {
    own_entry(
        namespace,
        pod_name,
        pod,
        container,
        container_named(pod, container),
        entry,
        sources,
    )
}

/// The name and the value of a variable of a container, of which the manifest says `own`, or why it
/// has none. What the manifest writes out counts first; a name alone stands for an empty value; a
/// source that is not known is refused, and never passed over.
pub open spec fn own_entry(
    namespace: Seq<char>,
    pod_name: Seq<char>,
    pod: Doc,
    container: Seq<char>,
    own: Option<Doc>,
    entry: Doc,
    sources: SourcesView,
) -> Result<(Seq<char>, Seq<char>), Seq<char>> {
    match entry.str_at("name"@) {
        None => Err("env entry has no name"@),
        Some(key) => match entry.get("value"@) {
            Some(v) => match v.text() {
                Some(s) => Ok((key, s)),
                None => Err("env "@ + key + ": value is not a string"@),
            },
            None => match entry.get("valueFrom"@) {
                None => Ok((key, Seq::empty())),
                Some(from) => with_key(
                    key,
                    taken_from(namespace, pod_name, pod, container, own, key, from, sources),
                ),
            },
        },
    }
}

/// A value with the name of its variable.
pub open spec fn with_key(key: Seq<char>, v: Result<Seq<char>, Seq<char>>) -> Result<
    (Seq<char>, Seq<char>),
    Seq<char>,
> {
    match v {
        Ok(s) => Ok((key, s)),
        Err(e) => Err(e),
    }
}

/// The sources that `valueFrom` names, in order: `unknown` where it names none.
pub open spec fn source_names(from: Doc) -> Seq<char> {
    match from {
        Doc::Obj(m) => if exists|k: Seq<char>| #[trigger] m.dom().contains(k) {
            scan::glued(text::sorted(m.dom()), ", "@)
        } else {
            "unknown"@
        },
        _ => "unknown"@,
    }
}

fn name_sources(from: &Json) -> (r: String)
    ensures
        r@ == source_names(from@),
{
    let keys = match from.keys() {
        None => {
            return "unknown".to_owned();
        },
        Some(v) => v,
    };
    let ghost dom = from@->Obj_0.dom();
    let ghost all = text::texts(keys@);
    if keys.len() == 0 {
        assert forall|k: Seq<char>| !(#[trigger] dom.contains(k)) by {
            assert(!all.contains(k));
        }
        return "unknown".to_owned();
    }
    assert(all.contains(all[0]));
    let mut names: Vec<String> = Vec::new();
    let mut i: usize = 0;
    assert(text::texts(names@).to_set() =~= all.take(0).to_set());
    while i < keys.len()
        invariant
            i <= keys@.len(),
            all == text::texts(keys@),
            text::ascending(text::texts(names@)),
            text::texts(names@).to_set() == all.take(i as int).to_set(),
        decreases keys@.len() - i,
    {
        insert_ascending(&mut names, keys[i].clone());
        proof {
            let shorter = all.take(i as int);
            let longer = all.take(i + 1);
            assert forall|k: Seq<char>| longer.to_set().contains(k) <==> shorter.to_set().insert(
                all[i as int],
            ).contains(k) by {
                if longer.contains(k) {
                    let j = choose|j: int| 0 <= j < longer.len() && longer[j] == k;
                    if j < i {
                        assert(shorter[j] == k);
                    }
                }
                if shorter.contains(k) {
                    let j = choose|j: int| 0 <= j < shorter.len() && shorter[j] == k;
                    assert(longer[j] == k);
                }
                assert(longer[i as int] == all[i as int]);
            }
            assert(longer.to_set() =~= shorter.to_set().insert(all[i as int]));
        }
        i += 1;
    }
    proof {
        let v = text::texts(names@);
        assert(all.take(i as int) =~= all);
        assert forall|k: Seq<char>| v.to_set().contains(k) <==> dom.contains(k) by {
            assert(all.to_set().contains(k) <==> all.contains(k));
        }
        assert(v.to_set() =~= dom);
        text::ascending_is_unique(v, text::sorted(dom));
        assert(v.skip(0) =~= v);
    }
    glue(names.as_slice(), 0, ", ")
}

/// The value that `valueFrom` names, or why there is none.
pub open spec fn taken_from(
    namespace: Seq<char>,
    pod_name: Seq<char>,
    pod: Doc,
    container: Seq<char>,
    own: Option<Doc>,
    key: Seq<char>,
    from: Doc,
    sources: SourcesView,
) -> Result<Seq<char>, Seq<char>> {
    match from.get("fieldRef"@) {
        Some(f) => from_field(key, f, namespace, pod_name, pod),
        None => match from.get("secretKeyRef"@) {
            Some(k) => from_object(key, SourceKind::Secret, k, namespace, sources.secrets),
            None => match from.get("configMapKeyRef"@) {
                Some(k) => from_object(
                    key,
                    SourceKind::ConfigMap,
                    k,
                    namespace,
                    sources.config_maps,
                ),
                None => match from.get("resourceFieldRef"@) {
                    Some(f) => from_resource(key, f, pod, container, own),
                    None => Err(
                        "env "@ + key + ": valueFrom."@ + source_names(from)
                            + " source is not supported yet — refusing rather than starting the container without it"@,
                    ),
                },
            },
        },
    }
}

fn take_from(
    namespace: &str,
    pod_name: &str,
    pod: &Json,
    container: &str,
    own: Option<&Json>,
    key: &str,
    from: &Json,
    sources: &EnvSources,
) -> (r: Result<String, String>)
    ensures
        agrees(
            r,
            taken_from(
                namespace@,
                pod_name@,
                pod@,
                container@,
                crate::node_lease::doc_opt(own),
                key@,
                from@,
                sources@,
            ),
        ),
{
    if let Some(f) = from.get("fieldRef") {
        return read_field(key, f, namespace, pod_name, pod);
    }
    if let Some(k) = from.get("secretKeyRef") {
        return read_object(key, SourceKind::Secret, k, namespace, &sources.secrets);
    }
    if let Some(k) = from.get("configMapKeyRef") {
        return read_object(key, SourceKind::ConfigMap, k, namespace, &sources.config_maps);
    }
    if let Some(f) = from.get("resourceFieldRef") {
        return read_resource(key, f, pod, container, own);
    }
    Err(
        cat5(
            "env ",
            key,
            ": valueFrom.",
            name_sources(from).as_str(),
            " source is not supported yet — refusing rather than starting the container without it",
        ),
    )
}

/// Whether a result is what the model of a variable says.
pub open spec fn entry_agrees(
    r: Result<(String, String), KubeletError>,
    label: Seq<char>,
    d: Result<(Seq<char>, Seq<char>), Seq<char>>,
) -> bool {
    match d {
        Ok((k, v)) => r matches Ok((a, b)) && a@ == k && b@ == v,
        Err(reason) => r matches Err(e) && error::invalid_pod(e, label, reason),
    }
}

/// The name and the value of a variable of the container of this name.
pub fn resolve_env_entry(
    namespace: &str,
    pod_name: &str,
    pod: &Json,
    container_name: &str,
    entry: &Json,
    sources: &EnvSources,
) -> (r: Result<(String, String), KubeletError>)
    ensures
        entry_agrees(
            r,
            pod_label(namespace@, pod_name@),
            env_entry(namespace@, pod_name@, pod@, container_name@, entry@, sources@),
        ),
{
    let own = find_container_spec(pod, container_name);
    resolve_own_entry(namespace, pod_name, pod, container_name, own, entry, sources)
}

/// The name and the value of a variable of a container, of which the manifest says `own`.
pub fn resolve_own_entry(
    namespace: &str,
    pod_name: &str,
    pod: &Json,
    container_name: &str,
    own: Option<&Json>,
    entry: &Json,
    sources: &EnvSources,
) -> (r: Result<(String, String), KubeletError>)
    ensures
        entry_agrees(
            r,
            pod_label(namespace@, pod_name@),
            own_entry(
                namespace@,
                pod_name@,
                pod@,
                container_name@,
                crate::node_lease::doc_opt(own),
                entry@,
                sources@,
            ),
        ),
{
    let key = match entry.str_at("name") {
        Some(k) => k,
        None => {
            return Err(refuse(namespace, pod_name, "env entry has no name".to_owned()));
        },
    };
    if let Some(v) = entry.get("value") {
        return match v.as_str() {
            Some(s) => Ok((key.to_owned(), s.to_owned())),
            None => Err(
                refuse(namespace, pod_name, cat3("env ", key, ": value is not a string")),
            ),
        };
    }
    match entry.get("valueFrom") {
        None => Ok((key.to_owned(), String::new())),
        Some(from) => match take_from(
            namespace,
            pod_name,
            pod,
            container_name,
            own,
            key,
            from,
            sources,
        ) {
            Ok(v) => Ok((key.to_owned(), v)),
            Err(reason) => Err(refuse(namespace, pod_name, reason)),
        },
    }
}

// ---- which objects are needed --------------------------------------------------------------

/// The object of this kind that a variable names.
pub open spec fn object_named(entry: Doc, kind: SourceKind) -> Option<Seq<char>> {
    match entry.get("valueFrom"@) {
        Some(from) => from.str_at2(ref_field(kind), "name"@),
        None => None,
    }
}

/// The objects of this kind that variables name.
pub open spec fn named_by_entries(env: Seq<Doc>, kind: SourceKind) -> Set<Seq<char>>
    decreases env.len(),
{
    if env.len() == 0 {
        Set::empty()
    } else {
        let rest = named_by_entries(env.drop_last(), kind);
        match object_named(env.last(), kind) {
            Some(n) => rest.insert(n),
            None => rest,
        }
    }
}

/// The objects of this kind that the variables of containers name.
pub open spec fn named_by_containers(list: Seq<Doc>, kind: SourceKind) -> Set<Seq<char>>
    decreases list.len(),
{
    if list.len() == 0 {
        Set::empty()
    } else {
        let rest = named_by_containers(list.drop_last(), kind);
        match list.last().arr_at("env"@) {
            Some(env) => rest.union(named_by_entries(env, kind)),
            None => rest,
        }
    }
}

/// The objects of this kind that the variables of a pod name, in its containers and in its init
/// containers.
pub open spec fn named_by_pod(pod: Doc, kind: SourceKind) -> Set<Seq<char>> {
    let a = match pod.arr_at2("spec"@, "containers"@) {
        Some(list) => named_by_containers(list, kind),
        None => Set::empty(),
    };
    let b = match pod.arr_at2("spec"@, "initContainers"@) {
        Some(list) => named_by_containers(list, kind),
        None => Set::empty(),
    };
    a.union(b)
}

fn add_entries(out: &mut Vec<String>, env: &Vec<Json>, kind: SourceKind)
    requires
        text::ascending(text::texts(old(out)@)),
    ensures
        text::ascending(text::texts(final(out)@)),
        text::texts(final(out)@).to_set() == text::texts(old(out)@).to_set().union(
            named_by_entries(json::docs(env@), kind),
        ),
{
    let ghost before = text::texts(out@).to_set();
    let ghost all = json::docs(env@);
    let mut i: usize = 0;
    assert(all.take(0) =~= Seq::<Doc>::empty());
    assert(before.union(named_by_entries(all.take(0), kind)) =~= before);
    while i < env.len()
        invariant
            i <= env@.len(),
            all == json::docs(env@),
            text::ascending(text::texts(out@)),
            text::texts(out@).to_set() == before.union(
                named_by_entries(all.take(i as int), kind),
            ),
        decreases env@.len() - i,
    {
        proof {
            json::docs_index(env@);
        }
        assert(all.take(i + 1).drop_last() =~= all.take(i as int));
        assert(all.take(i + 1).last() == env@[i as int]@);
        let name = match env[i].get("valueFrom") {
            Some(from) => from.str_at2(kind.ref_field(), "name"),
            None => None,
        };
        if let Some(n) = name {
            insert_ascending(out, n.to_owned());
        }
        assert(text::texts(out@).to_set() =~= before.union(
            named_by_entries(all.take(i + 1), kind),
        ));
        i += 1;
    }
    proof {
        json::docs_index(env@);
    }
    assert(all.take(i as int) =~= all);
}

fn add_containers(out: &mut Vec<String>, list: &Vec<Json>, kind: SourceKind)
    requires
        text::ascending(text::texts(old(out)@)),
    ensures
        text::ascending(text::texts(final(out)@)),
        text::texts(final(out)@).to_set() == text::texts(old(out)@).to_set().union(
            named_by_containers(json::docs(list@), kind),
        ),
{
    let ghost before = text::texts(out@).to_set();
    let ghost all = json::docs(list@);
    let mut i: usize = 0;
    assert(all.take(0) =~= Seq::<Doc>::empty());
    assert(before.union(named_by_containers(all.take(0), kind)) =~= before);
    while i < list.len()
        invariant
            i <= list@.len(),
            all == json::docs(list@),
            text::ascending(text::texts(out@)),
            text::texts(out@).to_set() == before.union(
                named_by_containers(all.take(i as int), kind),
            ),
        decreases list@.len() - i,
    {
        proof {
            json::docs_index(list@);
        }
        assert(all.take(i + 1).drop_last() =~= all.take(i as int));
        assert(all.take(i + 1).last() == list@[i as int]@);
        if let Some(env) = list[i].arr_at("env") {
            add_entries(out, env, kind);
        }
        assert(text::texts(out@).to_set() =~= before.union(
            named_by_containers(all.take(i + 1), kind),
        ));
        i += 1;
    }
    proof {
        json::docs_index(list@);
    }
    assert(all.take(i as int) =~= all);
}

/// The names of the objects of this kind that the variables of a pod name, in order, each once.
pub fn env_refs(pod: &Json, kind: SourceKind) -> (r: Vec<String>)
    ensures
        text::texts(r@) == text::sorted(named_by_pod(pod@, kind)),
        text::ascending(text::texts(r@)),
        text::texts(r@).to_set() == named_by_pod(pod@, kind),
{
    let mut out: Vec<String> = Vec::new();
    assert(text::texts(out@).to_set() =~= Set::<Seq<char>>::empty());
    if let Some(list) = pod.arr_at2("spec", "containers") {
        add_containers(&mut out, list, kind);
    }
    if let Some(list) = pod.arr_at2("spec", "initContainers") {
        add_containers(&mut out, list, kind);
    }
    assert(text::texts(out@).to_set() =~= named_by_pod(pod@, kind));
    proof {
        text::ascending_is_unique(
            text::texts(out@),
            text::sorted(named_by_pod(pod@, kind)),
        );
    }
    out
}

/// The key of an object that variables take their values from.
pub fn source_key(kind: SourceKind, namespace: &str, name: &str) -> (r: ResourceKey)
    ensures
        r@ == resource::key_in(""@, "v1"@, kind_name(kind), namespace@, name@),
{
    ResourceKey::namespaced("", "v1", kind.name(), namespace, name)
}

// ---- laws ----------------------------------------------------------------------------------

/// No variable vanishes: one with a name has a value, or the pod is refused with words that name
/// it.
#[verifier::spinoff_prover]
#[verifier::rlimit(60)]
pub proof fn no_variable_vanishes(
    namespace: Seq<char>,
    pod_name: Seq<char>,
    pod: Doc,
    container: Seq<char>,
    own: Option<Doc>,
    entry: Doc,
    sources: SourcesView,
)
    requires
        entry.str_at("name"@) is Some,
    ensures
        match own_entry(namespace, pod_name, pod, container, own, entry, sources) {
            Ok((k, v)) => entry.str_at("name"@) == Some(k),
            Err(reason) => scan::begins(reason, "env "@ + entry.str_at("name"@).unwrap()),
        },
{
    let key = entry.str_at("name"@).unwrap();
    match own_entry(namespace, pod_name, pod, container, own, entry, sources) {
        Ok(_) => {},
        Err(reason) => {
            let head = "env "@ + key;
            assert(reason.len() >= head.len() && reason.take(head.len() as int) =~= head);
        },
    }
}

/// A resource that names no container is one of the container that the variable belongs to, whatever
/// others of its name the pod has.
pub proof fn a_resource_is_of_its_own_container(
    key: Seq<char>,
    rref: Doc,
    pod: Doc,
    other: Doc,
    container: Seq<char>,
    own: Doc,
)
    requires
        rref.str_at("containerName"@) is None,
    ensures
        from_resource(key, rref, pod, container, Some(own)) == from_resource(
            key,
            rref,
            other,
            container,
            Some(own),
        ),
{
}

/// A source that is not known is refused with words that name it, and the variable with it.
/// `names` are the sources that `valueFrom` gives, in order.
pub proof fn an_unknown_source_is_named(
    namespace: Seq<char>,
    pod_name: Seq<char>,
    pod: Doc,
    container: Seq<char>,
    own: Option<Doc>,
    entry: Doc,
    sources: SourcesView,
    key: Seq<char>,
    from: Map<Seq<char>, Doc>,
    names: Seq<Seq<char>>,
    i: int,
)
    requires
        entry.str_at("name"@) == Some(key),
        entry.get("value"@) is None,
        entry.get("valueFrom"@) == Some(Doc::Obj(from)),
        text::ascending(names),
        names.to_set() == from.dom(),
        0 <= i < names.len(),
        !from.dom().contains("fieldRef"@),
        !from.dom().contains("secretKeyRef"@),
        !from.dom().contains("configMapKeyRef"@),
        !from.dom().contains("resourceFieldRef"@),
    ensures
        own_entry(namespace, pod_name, pod, container, own, entry, sources) matches Err(reason)
            && scan::begins(reason, "env "@ + key) && scan::holds(reason, names[i]),
{
    assert(names.to_set().contains(names[i]));
    assert(from.dom().contains(names[i]));
    text::ascending_is_unique(names, text::sorted(from.dom()));
    let told = scan::glued(names, ", "@);
    scan::glued_holds(names, ", "@, i);
    let behind =
        " source is not supported yet — refusing rather than starting the container without it"@;
    scan::held_within("env "@ + key + ": valueFrom."@, told, behind, names[i]);
    no_variable_vanishes(namespace, pod_name, pod, container, own, entry, sources);
}

/// A value that the manifest writes out is taken as it stands, whatever else the entry says.
pub proof fn what_is_written_counts(
    namespace: Seq<char>,
    pod_name: Seq<char>,
    pod: Doc,
    container: Seq<char>,
    own: Option<Doc>,
    entry: Doc,
    sources: SourcesView,
    key: Seq<char>,
    value: Seq<char>,
)
    requires
        entry.str_at("name"@) == Some(key),
        entry.get("value"@) == Some(Doc::Str(value)),
    ensures
        own_entry(namespace, pod_name, pod, container, own, entry, sources)
            == Ok::<(Seq<char>, Seq<char>), Seq<char>>((key, value)),
{
}

/// A resource is never told as less than it is: the value times the divisor covers the amount,
/// and one less would not.
pub proof fn resources_round_up(n: int, d: int)
    requires
        n >= 0,
        d > 0,
    ensures
        quantity::rounded_up(n, d) * d >= n,
        (quantity::rounded_up(n, d) - 1) * d < n || n == 0,
{
    let q = n / d;
    let r = n % d;
    assert(n == q * d + r && 0 <= r < d) by (nonlinear_arith)
        requires
            q == n / d,
            r == n % d,
            d > 0,
    ;
    assert((q + 1) * d == q * d + d && (q - 1) * d == q * d - d) by (nonlinear_arith);
}

/// What the downward fields give: the name and the namespace of the pod, and of the manifest or the
/// status the uid, the node, the account and the two addresses, empty where they are not set.
pub proof fn what_the_fields_of_a_pod_give(
    path: Seq<char>,
    namespace: Seq<char>,
    pod_name: Seq<char>,
    pod: Doc,
)
    ensures
        ({
            let v = field_value(path, namespace, pod_name, pod);
            &&& path == "metadata.name"@ ==> v == Some(pod_name)
            &&& path == "metadata.namespace"@ ==> v == Some(namespace)
            &&& path == "metadata.uid"@ ==> v == Some(
                match pod.str_at2("metadata"@, "uid"@) {
                    Some(s) => s,
                    None => Seq::empty(),
                },
            )
            &&& path == "spec.nodeName"@ ==> v == Some(
                match pod.str_at2("spec"@, "nodeName"@) {
                    Some(s) => s,
                    None => Seq::empty(),
                },
            )
            &&& path == "spec.serviceAccountName"@ ==> v == Some(
                match pod.str_at2("spec"@, "serviceAccountName"@) {
                    Some(s) => s,
                    None => Seq::empty(),
                },
            )
            &&& path == "status.podIP"@ ==> v == Some(
                match pod.str_at2("status"@, "podIP"@) {
                    Some(s) => s,
                    None => Seq::empty(),
                },
            )
            &&& path == "status.hostIP"@ ==> v == Some(
                match pod.str_at2("status"@, "hostIP"@) {
                    Some(s) => s,
                    None => Seq::empty(),
                },
            )
            &&& path != "metadata.name"@ && path != "metadata.namespace"@ && path
                != "metadata.uid"@ && path != "spec.nodeName"@ && path
                != "spec.serviceAccountName"@ && path != "status.podIP"@ && path
                != "status.hostIP"@ ==> v is None
        }),
{
    reveal_strlit("metadata.name");
    reveal_strlit("metadata.namespace");
    reveal_strlit("metadata.uid");
    reveal_strlit("spec.nodeName");
    reveal_strlit("spec.serviceAccountName");
    reveal_strlit("status.podIP");
    reveal_strlit("status.hostIP");
    assert("metadata.name"@.len() == 13);
    assert("metadata.namespace"@.len() == 18);
    assert("metadata.uid"@.len() == 12);
    assert("spec.nodeName"@.len() == 13);
    assert("metadata.name"@[0] == 'm');
    assert("metadata.uid"@[0] == 'm');
    assert("spec.nodeName"@[0] == 's');
    assert("spec.serviceAccountName"@.len() == 23);
    assert("status.podIP"@.len() == 12);
    assert("status.podIP"@[0] == 's');
    assert("status.hostIP"@.len() == 13);
    assert("status.hostIP"@[0] == 's');
    assert("status.hostIP"@[1] == 't');
    assert("spec.nodeName"@[1] == 'p');
}

/// A variable that takes a field has the value of that field, or is refused.
pub proof fn a_field_is_taken(
    key: Seq<char>,
    field_ref: Doc,
    namespace: Seq<char>,
    pod_name: Seq<char>,
    pod: Doc,
)
    ensures
        match from_field(key, field_ref, namespace, pod_name, pod) {
            Ok(v) => field_ref.str_at("fieldPath"@) is Some && field_value(
                field_ref.str_at("fieldPath"@).unwrap(),
                namespace,
                pod_name,
                pod,
            ) == Some(v),
            Err(_) => field_ref.str_at("fieldPath"@) is None || field_value(
                field_ref.str_at("fieldPath"@).unwrap(),
                namespace,
                pod_name,
                pod,
            ) is None,
        },
{
}

/// A variable that takes a key of a config map has the text under that key; one that takes a key of a
/// secret has the text that its base64 stands for, or is refused where that is no text. Where the
/// object or the key is not there, the variable is empty if the reference says that it may be missing,
/// and is refused if it does not. A reference without a name or a key is refused.
pub proof fn a_key_of_an_object_is_taken(
    key: Seq<char>,
    kind: SourceKind,
    krf: Doc,
    namespace: Seq<char>,
    objects: Map<Seq<char>, Doc>,
    name: Seq<char>,
    at: Seq<char>,
)
    requires
        krf.str_at("name"@) == Some(name),
        krf.str_at("key"@) == Some(at),
    ensures
        ({
            let v = from_object(key, kind, krf, namespace, objects);
            let optional = krf.get("optional"@) == Some(Doc::Bool(true));
            let found = objects.dom().contains(name) && value_at(objects[name], at) is Some;
            let text = value_at(objects[name], at).unwrap();
            &&& !found && optional ==> v is Ok && v->Ok_0.len() == 0
            &&& !found && !optional ==> v is Err
            &&& found && kind is ConfigMap ==> v == Ok::<Seq<char>, Seq<char>>(text)
            &&& found && kind is Secret ==> match text::base64_bytes(text) {
                Ok(b) => if vstd::utf8::valid_utf8(b) {
                    v == Ok::<Seq<char>, Seq<char>>(vstd::utf8::decode_utf8(b))
                } else {
                    v is Err
                },
                Err(_) => v is Err,
            }
        }),
{
}

/// A reference without a name or without a key is refused, whatever objects there are.
pub proof fn an_incomplete_reference_is_refused(
    key: Seq<char>,
    kind: SourceKind,
    krf: Doc,
    namespace: Seq<char>,
    objects: Map<Seq<char>, Doc>,
)
    requires
        krf.str_at("name"@) is None || krf.str_at("key"@) is None,
    ensures
        from_object(key, kind, krf, namespace, objects) is Err,
{
}

/// The sources of variables are told apart by the field that names them: a field of the pod, a
/// secret, a config map, a resource. Secrets are looked up among the secrets and config maps among the
/// config maps.
pub proof fn where_a_variable_is_taken_from(
    namespace: Seq<char>,
    pod_name: Seq<char>,
    pod: Doc,
    container: Seq<char>,
    own: Option<Doc>,
    entry: Doc,
    sources: SourcesView,
    key: Seq<char>,
    from: Doc,
    r: Doc,
)
    requires
        entry.str_at("name"@) == Some(key),
        entry.get("value"@) is None,
        entry.get("valueFrom"@) == Some(from),
    ensures
        ({
            let got = own_entry(namespace, pod_name, pod, container, own, entry, sources);
            let want = if from.get("fieldRef"@) == Some(r) {
                Some(from_field(key, r, namespace, pod_name, pod))
            } else if from.get("fieldRef"@) is None && from.get("secretKeyRef"@) == Some(r) {
                Some(from_object(key, SourceKind::Secret, r, namespace, sources.secrets))
            } else if from.get("fieldRef"@) is None && from.get("secretKeyRef"@) is None
                && from.get("configMapKeyRef"@) == Some(r) {
                Some(from_object(key, SourceKind::ConfigMap, r, namespace, sources.config_maps))
            } else if from.get("fieldRef"@) is None && from.get("secretKeyRef"@) is None
                && from.get("configMapKeyRef"@) is None && from.get("resourceFieldRef"@) == Some(
                r,
            ) {
                Some(from_resource(key, r, pod, container, own))
            } else {
                None
            };
            match want {
                Some(Ok(v)) => got == Ok::<(Seq<char>, Seq<char>), Seq<char>>((key, v)),
                Some(Err(e)) => got == Err::<(Seq<char>, Seq<char>), Seq<char>>(e),
                None => true,
            }
        }),
{
}

/// A variable that is only named is empty. One without a name, one whose value is no text and one from
/// a source that is not known are refused.
pub proof fn which_variables_are_refused(
    namespace: Seq<char>,
    pod_name: Seq<char>,
    pod: Doc,
    container: Seq<char>,
    own: Option<Doc>,
    entry: Doc,
    sources: SourcesView,
)
    ensures
        ({
            let got = own_entry(namespace, pod_name, pod, container, own, entry, sources);
            &&& entry.str_at("name"@) is None ==> got is Err
            &&& entry.get("value"@) is Some && !(entry.get("value"@).unwrap() is Str)
                ==> got is Err
            &&& entry.str_at("name"@) is Some && entry.get("value"@) is None && entry.get(
                "valueFrom"@,
            ) is None ==> got == Ok::<(Seq<char>, Seq<char>), Seq<char>>(
                (entry.str_at("name"@).unwrap(), Seq::empty()),
            )
            &&& entry.get("value"@) is None && entry.get("valueFrom"@) is Some && entry.get(
                "valueFrom"@,
            ).unwrap().get("fieldRef"@) is None && entry.get("valueFrom"@).unwrap().get(
                "secretKeyRef"@,
            ) is None && entry.get("valueFrom"@).unwrap().get("configMapKeyRef"@) is None
                && entry.get("valueFrom"@).unwrap().get("resourceFieldRef"@) is None
                ==> got is Err
        }),
{
}

/// A resource is told in units of the divisor, rounded up, and as a number. One that a container does
/// not state, or that cannot be read, is refused, and so is a divisor that is not positive.
pub proof fn how_a_resource_is_told(
    key: Seq<char>,
    resource: Seq<char>,
    target: Seq<char>,
    bound: quantity::BoundView,
    divisor: Seq<char>,
    unit: QuantityUnit,
    d: int,
)
    requires
        quantity::quantity(divisor, unit) == Some(d) || (quantity::quantity(divisor, unit) is None
            && d == 0),
    ensures
        ({
            let got = from_amount(key, resource, target, bound, divisor, unit);
            &&& bound is Unset ==> got is Err
            &&& bound is Unparseable ==> got is Err
            &&& d <= 0 ==> got is Err
            &&& bound matches quantity::BoundView::Amount(n) ==> d > 0 && n >= 0 ==> {
                &&& got is Ok
                &&& exists|q: int|
                    got->Ok_0 == #[trigger] number::decimal(q) && q * d >= n && (q - 1) * d < n
            }
        }),
{
    if let quantity::BoundView::Amount(n) = bound {
        if d > 0 && n >= 0 {
            let q = quantity::rounded_up(n, d);
            resources_round_up(n, d);
            if n == 0 {
                assert(q == 0) by {
                    vstd::arithmetic::div_mod::lemma_div_of0(d);
                    vstd::arithmetic::div_mod::lemma_small_mod(0, d as nat);
                }
                assert((q - 1) * d < 0) by (nonlinear_arith)
                    requires
                        q == 0,
                        d > 0,
                ;
            }
            assert(from_amount(key, resource, target, bound, divisor, unit)->Ok_0
                == number::decimal(q));
        }
    }
}

/// A resource is that of the container that the reference names, or of the variable's own, under
/// `limits` or `requests`; processors count in thousandths and all else in bytes.
pub proof fn whose_resource_is_told(
    key: Seq<char>,
    rref: Doc,
    pod: Doc,
    container: Seq<char>,
    own: Option<Doc>,
    bucket: Seq<char>,
    field: Seq<char>,
)
    requires
        rref.str_at("resource"@) is Some,
        scan::halves(rref.str_at("resource"@).unwrap(), '.') == Some((bucket, field)),
    ensures
        ({
            let got = from_resource(key, rref, pod, container, own);
            let found = match rref.str_at("containerName"@) {
                Some(c) => container_named(pod, c),
                None => own,
            };
            let target = match rref.str_at("containerName"@) {
                Some(c) => c,
                None => container,
            };
            let unit = if field == "cpu"@ {
                QuantityUnit::MilliCores
            } else {
                QuantityUnit::Bytes
            };
            &&& found is None ==> got is Err
            &&& bucket != "limits"@ && bucket != "requests"@ ==> got is Err
            &&& found is Some && (bucket == "limits"@ || bucket == "requests"@) ==> got
                == from_amount(
                key,
                rref.str_at("resource"@).unwrap(),
                target,
                quantity::bound_of(found.unwrap().get2("resources"@, bucket), field, unit),
                divisor_text(rref),
                unit,
            )
        }),
{
}

/// The divisor is what is written, as a text or a number, and one where nothing is.
pub proof fn what_divides(rref: Doc)
    ensures
        rref.get("divisor"@) is None ==> divisor_text(rref) == "1"@,
        rref.get("divisor"@) matches Some(Doc::Str(s)) ==> divisor_text(rref) == if s.len() == 0 {
            "1"@
        } else {
            s
        },
        rref.get("divisor"@) matches Some(Doc::Int(n)) ==> divisor_text(rref) == number::decimal(
            n,
        ),
        rref.get("divisor"@) matches Some(Doc::Decimal(s)) ==> divisor_text(rref) == s,
{
}

/// A container is found by its name among the containers first, and then among the init containers:
/// the first that has it.
pub proof fn the_container_of_a_name(items: Seq<Doc>, want: Seq<char>)
    ensures
        match named_in(items, want) {
            Some(c) => exists|i: int|
                0 <= i < items.len() && (#[trigger] items[i]) == c && c.str_at("name"@) == Some(
                    want,
                ) && forall|j: int|
                    0 <= j < i ==> (#[trigger] items[j]).str_at("name"@) != Some(want),
            None => forall|i: int|
                0 <= i < items.len() ==> (#[trigger] items[i]).str_at("name"@) != Some(want),
        },
    decreases items.len(),
{
    if items.len() > 0 {
        if items[0].str_at("name"@) == Some(want) {
            assert(items[0] == named_in(items, want).unwrap());
        } else {
            let rest = items.skip(1);
            the_container_of_a_name(rest, want);
            match named_in(items, want) {
                Some(c) => {
                    let i = choose|i: int|
                        0 <= i < rest.len() && (#[trigger] rest[i]) == c && c.str_at("name"@)
                            == Some(want) && forall|j: int|
                            0 <= j < i ==> (#[trigger] rest[j]).str_at("name"@) != Some(want);
                    assert(items[i + 1] == c);
                    assert forall|j: int| 0 <= j < i + 1 implies (#[trigger] items[j]).str_at(
                        "name"@,
                    ) != Some(want) by {
                        if j > 0 {
                            assert(rest[j - 1] == items[j]);
                        }
                    }
                },
                None => {
                    assert forall|i: int| 0 <= i < items.len() implies (
                    #[trigger] items[i]).str_at("name"@) != Some(want) by {
                        if i > 0 {
                            assert(rest[i - 1] == items[i]);
                        }
                    }
                },
            }
        }
    }
}

/// App containers come before init containers of the same name.
pub proof fn app_containers_are_found_first(pod: Doc, want: Seq<char>, list: Seq<Doc>)
    requires
        pod.arr_at2("spec"@, "containers"@) == Some(list),
    ensures
        named_in(list, want) is Some ==> container_named(pod, want) == named_in(list, want),
        named_in(list, want) is None ==> match pod.arr_at2("spec"@, "initContainers"@) {
            Some(init) => container_named(pod, want) == named_in(init, want),
            None => container_named(pod, want) is None,
        },
{
}

proof fn entries_name(env: Seq<Doc>, kind: SourceKind, name: Seq<char>)
    ensures
        named_by_entries(env, kind).contains(name) <==> exists|i: int|
            0 <= i < env.len() && object_named(#[trigger] env[i], kind) == Some(name),
    decreases env.len(),
{
    if env.len() > 0 {
        let front = env.drop_last();
        entries_name(front, kind, name);
        if named_by_entries(front, kind).contains(name) {
            let i = choose|i: int|
                0 <= i < front.len() && object_named(#[trigger] front[i], kind) == Some(name);
            assert(object_named(env[i], kind) == Some(name));
        }
        if object_named(env.last(), kind) == Some(name) {
            assert(object_named(env[env.len() - 1], kind) == Some(name));
        }
        if exists|i: int|
            0 <= i < env.len() && object_named(#[trigger] env[i], kind) == Some(name) {
            let i = choose|i: int|
                0 <= i < env.len() && object_named(#[trigger] env[i], kind) == Some(name);
            if i < front.len() {
                assert(object_named(front[i], kind) == Some(name));
            }
        }
    }
}

proof fn containers_name(list: Seq<Doc>, kind: SourceKind, name: Seq<char>, i: int, j: int)
    requires
        0 <= i < list.len(),
        list[i].arr_at("env"@) is Some,
        0 <= j < list[i].arr_at("env"@).unwrap().len(),
        object_named(list[i].arr_at("env"@).unwrap()[j], kind) == Some(name),
    ensures
        named_by_containers(list, kind).contains(name),
    decreases list.len(),
{
    let front = list.drop_last();
    if i < front.len() {
        assert(front[i] == list[i]);
        containers_name(front, kind, name, i, j);
    } else {
        entries_name(list[i].arr_at("env"@).unwrap(), kind, name);
    }
}

/// Every secret and every config map that a variable of a container names, in whichever list the
/// container stands, is fetched.
pub proof fn every_source_is_fetched(
    pod: Doc,
    list: Seq<Doc>,
    kind: SourceKind,
    name: Seq<char>,
    from: Doc,
    i: int,
    j: int,
)
    requires
        pod.arr_at2("spec"@, "containers"@) == Some(list) || pod.arr_at2(
            "spec"@,
            "initContainers"@,
        ) == Some(list),
        0 <= i < list.len(),
        list[i].arr_at("env"@) is Some,
        0 <= j < list[i].arr_at("env"@).unwrap().len(),
        list[i].arr_at("env"@).unwrap()[j].get("valueFrom"@) == Some(from),
        kind is Secret ==> from.str_at2("secretKeyRef"@, "name"@) == Some(name),
        kind is ConfigMap ==> from.str_at2("configMapKeyRef"@, "name"@) == Some(name),
    ensures
        named_by_pod(pod, kind).contains(name),
{
    containers_name(list, kind, name, i, j);
}

proof fn named_by_some(list: Seq<Doc>, kind: SourceKind, name: Seq<char>) -> (at: (int, int))
    requires
        named_by_containers(list, kind).contains(name),
    ensures
        0 <= at.0 < list.len(),
        list[at.0].arr_at("env"@) is Some,
        0 <= at.1 < list[at.0].arr_at("env"@).unwrap().len(),
        object_named(list[at.0].arr_at("env"@).unwrap()[at.1], kind) == Some(name),
    decreases list.len(),
{
    let front = list.drop_last();
    if named_by_containers(front, kind).contains(name) {
        let at = named_by_some(front, kind, name);
        assert(front[at.0] == list[at.0]);
        at
    } else {
        let env = list.last().arr_at("env"@).unwrap();
        entries_name(env, kind, name);
        let j = choose|j: int|
            0 <= j < env.len() && object_named(#[trigger] env[j], kind) == Some(name);
        (list.len() - 1, j)
    }
}

/// Nothing is fetched that no variable names.
pub proof fn nothing_else_is_fetched(pod: Doc, kind: SourceKind, name: Seq<char>) -> (at: (
    Seq<Doc>,
    int,
    int,
))
    requires
        named_by_pod(pod, kind).contains(name),
    ensures
        pod.arr_at2("spec"@, "containers"@) == Some(at.0) || pod.arr_at2(
            "spec"@,
            "initContainers"@,
        ) == Some(at.0),
        0 <= at.1 < at.0.len(),
        at.0[at.1].arr_at("env"@) is Some,
        0 <= at.2 < at.0[at.1].arr_at("env"@).unwrap().len(),
        at.0[at.1].arr_at("env"@).unwrap()[at.2].get("valueFrom"@) matches Some(from) && from.str_at2(
            if kind is Secret {
                "secretKeyRef"@
            } else {
                "configMapKeyRef"@
            },
            "name"@,
        ) == Some(name),
{
    let app = pod.arr_at2("spec"@, "containers"@);
    if app is Some && named_by_containers(app.unwrap(), kind).contains(name) {
        let at = named_by_some(app.unwrap(), kind, name);
        (app.unwrap(), at.0, at.1)
    } else {
        let init = pod.arr_at2("spec"@, "initContainers"@).unwrap();
        let at = named_by_some(init, kind, name);
        (init, at.0, at.1)
    }
}

/// The text under a key of an object is the field of that name of its data.
pub proof fn where_the_data_of_an_object_lies(object: Doc, data: Map<Seq<char>, Doc>, key: Seq<char>)
    requires
        object.get("data"@) == Some(Doc::Obj(data)),
        forall|i: int| 0 <= i < key.len() ==> (#[trigger] key[i]) != '/' && key[i] != '~',
    ensures
        value_at(object, key) == Doc::Obj(data).str_at(key),
{
    reveal_strlit("data");
    reveal_strlit("/data/");
    assert("/data/"@ + key =~= seq!['/'] + "data"@ + seq!['/'] + key);
    assert("data"@[0] == 'd' && "data"@[1] == 'a' && "data"@[2] == 't' && "data"@[3] == 'a');
    json::a_pointer_leads_from_field_to_field(object, "data"@, key);
}

/// The sources of variables are told whole: each kind by itself, each object under its name.
pub proof fn sources_are_told_whole(s: EnvSources, name: Seq<char>)
    ensures
        s@.secrets.dom() == s.secrets@.dom(),
        s@.config_maps.dom() == s.config_maps@.dom(),
        s.secrets@.dom().contains(name) ==> s@.secrets[name] == s.secrets@[name]@,
        s.config_maps@.dom().contains(name) ==> s@.config_maps[name] == s.config_maps@[name]@,
{
    assert(s@.secrets.dom() =~= s.secrets@.dom());
    assert(s@.config_maps.dom() =~= s.config_maps@.dom());
}

/// A variable comes out with its name and its value, or the error names the pod and the reason.
pub proof fn how_a_variable_is_handed_on(
    r: Result<(String, String), KubeletError>,
    label: Seq<char>,
    d: Result<(Seq<char>, Seq<char>), Seq<char>>,
    s: Result<String, String>,
    t: Result<Seq<char>, Seq<char>>,
)
    ensures
        entry_agrees(r, label, d) ==> (r is Ok <==> d is Ok),
        entry_agrees(r, label, d) && r is Ok ==> r->Ok_0.0@ == d->Ok_0.0 && r->Ok_0.1@
            == d->Ok_0.1,
        entry_agrees(r, label, d) && r is Err ==> (r->Err_0 matches KubeletError::InvalidPod {
            pod,
            reason,
        } && pod@ == label && reason@ == d->Err_0),
        agrees(s, t) ==> (s is Ok <==> t is Ok) && (s is Ok ==> s->Ok_0@ == t->Ok_0) && (s is Err
            ==> s->Err_0@ == t->Err_0),
{
}

/// A secret that cannot be read is refused by the name of the variable and the place of the secret, with
/// what was wrong.
pub proof fn how_an_unreadable_secret_is_told(
    key: Seq<char>,
    at: Seq<char>,
    words: Seq<char>,
    bytes: Seq<u8>,
)
    ensures
        decoded(key, at, Err(words)) == Err::<Seq<char>, Seq<char>>(
            "env "@ + key + ": Secret "@ + at + " not base64: "@ + words,
        ),
        !vstd::utf8::valid_utf8(bytes) ==> decoded(key, at, Ok(bytes)) == Err::<
            Seq<char>,
            Seq<char>,
        >("env "@ + key + ": Secret "@ + at + " not utf-8: "@ + text::utf8_complaint(bytes)),
        vstd::utf8::valid_utf8(bytes) ==> decoded(key, at, Ok(bytes)) == Ok::<
            Seq<char>,
            Seq<char>,
        >(vstd::utf8::decode_utf8(bytes)),
{
}

/// Secrets and config maps are referred to by their own fields and fetched by their own kinds.
pub proof fn how_sources_are_referred_to()
    ensures
        ref_field(SourceKind::Secret) == "secretKeyRef"@,
        ref_field(SourceKind::ConfigMap) == "configMapKeyRef"@,
        kind_name(SourceKind::Secret) == "Secret"@,
        kind_name(SourceKind::ConfigMap) == "ConfigMap"@,
{
}

} // verus!
