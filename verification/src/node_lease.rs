//! The heartbeat of a node, and what is told from it.

use vstd::prelude::*;
use crate::conditions::{self, other_conditions};
use crate::json::{self, Doc, Json};
use crate::resource::{self, ResourceKey};
use crate::text::same;
use crate::time::{self, Duration, Instant};

verus! {

/// How often a node renews its lease, in seconds.
pub const RENEW_INTERVAL_SECS: u64 = 10;

/// How old a heartbeat may get before nothing is known of the node, in seconds.
pub const GRACE_PERIOD_SECS: u64 = 40;

/// The namespace of the leases.
pub const LEASE_NAMESPACE: &'static str = "kube-node-lease";

/// How often a node renews its lease.
pub fn renew_interval() -> (r: Duration)
    ensures
        r@ == time::secs(RENEW_INTERVAL_SECS as nat),
{
    Duration::from_secs(RENEW_INTERVAL_SECS)
}

/// How old a heartbeat may get before nothing is known of the node.
pub fn grace_period() -> (r: Duration)
    ensures
        r@ == time::secs(GRACE_PERIOD_SECS as nat),
{
    Duration::from_secs(GRACE_PERIOD_SECS)
}

/// The lease of a node.
pub open spec fn lease_doc(node: Seq<char>, renew_time: Seq<char>, transitions: int) -> Doc {
    Doc::Obj(
        map![
            "apiVersion"@ => Doc::Str("coordination.k8s.io/v1"@),
            "kind"@ => Doc::Str("Lease"@),
            "metadata"@ => Doc::Obj(
                map![
                    "name"@ => Doc::Str(node),
                    "namespace"@ => Doc::Str("kube-node-lease"@)
                ],
            ),
            "spec"@ => Doc::Obj(
                map![
                    "holderIdentity"@ => Doc::Str(node),
                    "leaseDurationSeconds"@ => Doc::Int(40),
                    "renewTime"@ => Doc::Str(renew_time),
                    "leaseTransitions"@ => Doc::Int(transitions)
                ],
            )
        ],
    )
}

/// The lease of a node, renewed at this time.
pub fn lease_value(node: &str, renew_time: &str, transitions: u64) -> (r: Json)
    ensures
        r@ == lease_doc(node@, renew_time@, transitions as int),
{
    let metadata = Json::object().with("name", Json::string(node)).with(
        "namespace",
        Json::string(LEASE_NAMESPACE),
    );
    let spec = Json::object().with("holderIdentity", Json::string(node)).with(
        "leaseDurationSeconds",
        Json::Int(GRACE_PERIOD_SECS as i128),
    ).with("renewTime", Json::string(renew_time)).with(
        "leaseTransitions",
        Json::Int(transitions as i128),
    );
    Json::object().with("apiVersion", Json::string("coordination.k8s.io/v1")).with(
        "kind",
        Json::string("Lease"),
    ).with("metadata", metadata).with("spec", spec)
}

/// The key of a node's lease.
pub fn lease_key(node: &str) -> (r: ResourceKey)
    ensures
        r@ == resource::key_in(
            "coordination.k8s.io"@,
            "v1"@,
            "Lease"@,
            "kube-node-lease"@,
            node@,
        ),
{
    ResourceKey::namespaced("coordination.k8s.io", "v1", "Lease", LEASE_NAMESPACE, node)
}

/// Whether the lease is renewed now: at first, and then once per interval.
pub open spec fn renewal_is_due(last: Option<Instant>, now: Instant) -> bool {
    match last {
        None => true,
        Some(prev) => time::elapsed(prev@, now@) >= time::secs(10),
    }
}

/// Whether the lease is renewed now, and when it then was last renewed.
pub fn renew_due(last: Option<Instant>, now: Instant) -> (r: (bool, Option<Instant>))
    ensures
        r.0 == renewal_is_due(last, now),
        r.1 == if r.0 {
            Some(now)
        } else {
            last
        },
{
    match last {
        None => (true, Some(now)),
        Some(prev) => if now.saturating_duration_since(prev).nanos < renew_interval().nanos {
            (false, last)
        } else {
            (true, Some(now))
        },
    }
}

/// What is known of a node.
#[derive(Clone, Copy, Debug, PartialEq, Eq, Structural)]
pub enum NodeReadiness {
    /// Its heartbeat is fresh.
    Ready,
    /// Its heartbeat stopped, and nothing is known of it any more.
    Stale,
    /// It never had a heartbeat.
    Unknown,
}

/// The status that is published for a readiness.
pub open spec fn ready_status(s: NodeReadiness) -> Seq<char> {
    match s {
        NodeReadiness::Ready => "True"@,
        _ => "Unknown"@,
    }
}

/// The reason that is published for a readiness.
pub open spec fn ready_reason(s: NodeReadiness) -> Seq<char> {
    match s {
        NodeReadiness::Ready => "KubeletReady"@,
        NodeReadiness::Stale => "NodeStatusUnknown"@,
        NodeReadiness::Unknown => "NodeStatusNeverUpdated"@,
    }
}

/// The words that are published for a readiness.
pub open spec fn ready_message(s: NodeReadiness) -> Seq<char> {
    match s {
        NodeReadiness::Ready => "kubelet is posting ready status"@,
        NodeReadiness::Stale => "Kubelet stopped posting node status"@,
        NodeReadiness::Unknown => "Kubelet never posted node status"@,
    }
}

impl NodeReadiness {
    /// The status to publish.
    pub fn condition_status(self) -> (r: &'static str)
        ensures
            r@ == ready_status(self),
    {
        match self {
            NodeReadiness::Ready => "True",
            NodeReadiness::Stale => "Unknown",
            NodeReadiness::Unknown => "Unknown",
        }
    }

    /// The reason to publish.
    pub fn reason(self) -> (r: &'static str)
        ensures
            r@ == ready_reason(self),
    {
        match self {
            NodeReadiness::Ready => "KubeletReady",
            NodeReadiness::Stale => "NodeStatusUnknown",
            NodeReadiness::Unknown => "NodeStatusNeverUpdated",
        }
    }

    fn message(self) -> (r: &'static str)
        ensures
            r@ == ready_message(self),
    {
        match self {
            NodeReadiness::Ready => "kubelet is posting ready status",
            NodeReadiness::Stale => "Kubelet stopped posting node status",
            NodeReadiness::Unknown => "Kubelet never posted node status",
        }
    }
}

/// What is known of a node whose last heartbeat is this old; none was ever seen where there is no
/// age.
pub fn readiness(since_renew: Option<Duration>) -> (r: NodeReadiness)
    ensures
        r == match since_renew {
            None => NodeReadiness::Unknown,
            Some(age) => if age@ <= time::secs(40) {
                NodeReadiness::Ready
            } else {
                NodeReadiness::Stale
            },
        },
{
    match since_renew {
        None => NodeReadiness::Unknown,
        Some(age) => if age.nanos <= grace_period().nanos {
            NodeReadiness::Ready
        } else {
            NodeReadiness::Stale
        },
    }
}

/// When the readiness last changed: where the status stays what it was, that moment is carried
/// over.
pub open spec fn transition_time(
    state: NodeReadiness,
    now: Seq<char>,
    previous: Option<Doc>,
) -> Seq<char> {
    match previous {
        Some(p) => if p.str_at("status"@) == Some(ready_status(state)) && p.str_at(
            "lastTransitionTime"@,
        ) is Some {
            p.str_at("lastTransitionTime"@)->0
        } else {
            now
        },
        None => now,
    }
}

/// The condition that is published for a readiness.
pub open spec fn ready_doc(state: NodeReadiness, now: Seq<char>, previous: Option<Doc>) -> Doc {
    Doc::Obj(
        map![
            "type"@ => Doc::Str("Ready"@),
            "status"@ => Doc::Str(ready_status(state)),
            "reason"@ => Doc::Str(ready_reason(state)),
            "message"@ => Doc::Str(ready_message(state)),
            "lastHeartbeatTime"@ => Doc::Str(now),
            "lastTransitionTime"@ => Doc::Str(transition_time(state, now, previous))
        ],
    )
}

/// The model of an optional reference.
pub open spec fn doc_opt(v: Option<&Json>) -> Option<Doc> {
    match v {
        Some(j) => Some(j@),
        None => None,
    }
}

/// The condition to publish, `previous` being the one that is published now.
pub fn ready_condition(state: NodeReadiness, now: &str, previous: Option<&Json>) -> (r: Json)
    ensures
        r@ == ready_doc(state, now@, doc_opt(previous)),
{
    let status = state.condition_status();
    let mut last_transition = now;
    if let Some(p) = previous {
        if let Some(s) = p.str_at("status") {
            if same(s, status) {
                if let Some(t) = p.str_at("lastTransitionTime") {
                    last_transition = t;
                }
            }
        }
    }
    Json::object().with("type", Json::string("Ready")).with("status", Json::string(status)).with(
        "reason",
        Json::string(state.reason()),
    ).with("message", Json::string(state.message())).with(
        "lastHeartbeatTime",
        Json::string(now),
    ).with("lastTransitionTime", Json::string(last_transition))
}

/// The first condition of type `Ready`, from `i` on.
pub open spec fn first_ready(conditions: Seq<Doc>, i: int) -> Option<Doc>
    decreases conditions.len() - i,
{
    if i < 0 || i >= conditions.len() {
        None
    } else if conditions[i].str_at("type"@) == Some("Ready"@) {
        Some(conditions[i])
    } else {
        first_ready(conditions, i + 1)
    }
}

/// The `Ready` condition of a node, found by its type.
pub open spec fn ready_of(node: Doc) -> Option<Doc> {
    match node.arr_at2("status"@, "conditions"@) {
        Some(conditions) => first_ready(conditions, 0),
        None => None,
    }
}

/// The `Ready` condition of a node.
pub fn find_ready_condition(node: &Json) -> (r: Option<&Json>)
    ensures
        json::same_doc(r, ready_of(node@)),
{
    match node.arr_at2("status", "conditions") {
        None => None,
        Some(list) => {
            let ghost all = json::docs(list@);
            let mut i: usize = 0;
            while i < list.len()
                invariant
                    i <= list@.len(),
                    all == json::docs(list@),
                    node@.arr_at2("status"@, "conditions"@) == Some(all),
                    first_ready(all, 0) == first_ready(all, i as int),
                decreases list@.len() - i,
            {
                let c = &list[i];
                proof {
                    json::docs_index(list@);
                }
                assert(all[i as int] == c@);
                if let Some(t) = c.str_at("type") {
                    if same(t, "Ready") {
                        return Some(c);
                    }
                }
                i += 1;
            }
            proof {
                json::docs_index(list@);
            }
            None
        },
    }
}

/// When a lease says it was renewed.
pub fn renew_time(lease: &Json) -> (r: Option<&str>)
    ensures
        json::same_text(r, lease@.str_at2("spec"@, "renewTime"@)),
{
    lease.str_at2("spec", "renewTime")
}

/// Whether two conditions tell an operator the same: the heartbeat's time does not count.
pub open spec fn tells_the_same(a: Doc, state: NodeReadiness) -> bool {
    a.get("status"@) == Some(Doc::Str(ready_status(state))) && a.get("reason"@) == Some(
        Doc::Str(ready_reason(state)),
    )
}

/// A node with its conditions replaced by these. What is no object stays as it is.
pub open spec fn with_conditions(node: Doc, conditions: Seq<Doc>) -> Doc {
    match node {
        Doc::Obj(m) => {
            let status = if m.dom().contains("status"@) {
                m["status"@]
            } else {
                Doc::Obj(Map::empty())
            };
            match status {
                Doc::Obj(s) => Doc::Obj(
                    m.insert(
                        "status"@,
                        Doc::Obj(s.insert("conditions"@, Doc::Arr(conditions))),
                    ),
                ),
                _ => node,
            }
        },
        _ => node,
    }
}

/// The node to store where its readiness is this: nothing where nothing changed that anyone acts
/// on; otherwise the node with its `Ready` condition replaced and every other condition kept.
pub open spec fn published_node(node: Doc, state: NodeReadiness, now: Seq<char>) -> Option<Doc> {
    let previous = ready_of(node);
    if previous matches Some(p) && tells_the_same(p, state) {
        None
    } else {
        let kept = match node.arr_at2("status"@, "conditions"@) {
            Some(c) => conditions::others(c, seq!["Ready"@]),
            None => Seq::empty(),
        };
        Some(with_conditions(node, kept.push(ready_doc(state, now, previous))))
    }
}

fn same_text_field(c: &Json, key: &str, want: &str) -> (r: bool)
    ensures
        r == (c@.get(key@) == Some(Doc::Str(want@))),
{
    match c.str_at(key) {
        Some(s) => same(s, want),
        None => false,
    }
}

/// The node to store where its readiness is this, where it must be stored.
pub fn publish_readiness(node: &Json, state: NodeReadiness, now: &str) -> (r: Option<Json>)
    ensures
        match r {
            Some(n) => published_node(node@, state, now@) == Some(n@),
            None => published_node(node@, state, now@) is None,
        },
{
    let previous = find_ready_condition(node);
    if let Some(p) = previous {
        if same_text_field(p, "status", state.condition_status()) && same_text_field(
            p,
            "reason",
            state.reason(),
        ) {
            return None;
        }
    }
    let condition = ready_condition(state, now, previous);
    let types: [&str; 1] = ["Ready"];
    let mut kept = other_conditions(node.arr_at2("status", "conditions"), &types);
    proof {
        assert(conditions::slices(types@) =~= seq!["Ready"@]);
    }
    let ghost before = kept@;
    kept.push(condition);
    assert(kept@.drop_last() =~= before);
    let mut desired = node.copy();
    if desired.is_object() {
        let mut status = match node.get("status") {
            Some(s) => s.copy(),
            None => Json::object(),
        };
        if status.is_object() {
            status.set("conditions", Json::array(kept));
            desired.set("status", status);
        }
    }
    Some(desired)
}

// ---- laws ----------------------------------------------------------------------------------

/// The moment of the last change moves only when the status does.
pub proof fn transition_moves_with_the_status(
    a: NodeReadiness,
    b: NodeReadiness,
    t0: Seq<char>,
    t1: Seq<char>,
    before: Option<Doc>,
)
    ensures
        ({
            let first = ready_doc(a, t0, before);
            let second = ready_doc(b, t1, Some(first));
            &&& second.str_at("lastHeartbeatTime"@) == Some(t1)
            &&& second.str_at("lastTransitionTime"@) == if ready_status(a) == ready_status(b) {
                first.str_at("lastTransitionTime"@)
            } else {
                Some(t1)
            }
        }),
{
    condition_fields(a, t0, before);
    condition_fields(b, t1, Some(ready_doc(a, t0, before)));
}

proof fn condition_fields(s: NodeReadiness, now: Seq<char>, previous: Option<Doc>)
    ensures
        ready_doc(s, now, previous).str_at("type"@) == Some("Ready"@),
        ready_doc(s, now, previous).get("status"@) == Some(Doc::Str(ready_status(s))),
        ready_doc(s, now, previous).get("reason"@) == Some(Doc::Str(ready_reason(s))),
        ready_doc(s, now, previous).str_at("lastHeartbeatTime"@) == Some(now),
        ready_doc(s, now, previous).str_at("lastTransitionTime"@) == Some(
            transition_time(s, now, previous),
        ),
{
    reveal_strlit("type");
    reveal_strlit("status");
    reveal_strlit("reason");
    reveal_strlit("message");
    reveal_strlit("lastHeartbeatTime");
    reveal_strlit("lastTransitionTime");
    assert("type"@.len() == 4 && "status"@.len() == 6 && "reason"@.len() == 6 && "message"@.len()
        == 7 && "lastHeartbeatTime"@.len() == 17 && "lastTransitionTime"@.len() == 18);
    assert("status"@[0] == 's' && "reason"@[0] == 'r');
}

proof fn first_ready_at_end(kept: Seq<Doc>, c: Doc, i: int)
    requires
        0 <= i <= kept.len(),
        forall|k: int|
            0 <= k < kept.len() ==> (#[trigger] kept[k]).str_at("type"@) != Some("Ready"@),
        c.str_at("type"@) == Some("Ready"@),
    ensures
        first_ready(kept.push(c), i) == Some(c),
    decreases kept.len() - i,
{
    if i < kept.len() {
        assert(kept.push(c)[i] == kept[i]);
        first_ready_at_end(kept, c, i + 1);
    }
}

/// Publishing settles: a node that was just stored with this readiness is not stored again for
/// it, however the clock moves on. (What is no object, or has a status that is none, can hold no
/// condition.)
pub proof fn publishing_settles(node: Doc, state: NodeReadiness, t0: Seq<char>, t1: Seq<char>)
    requires
        published_node(node, state, t0) is Some,
        node is Obj,
        node.get("status"@) matches Some(s) ==> s is Obj,
    ensures
        published_node(published_node(node, state, t0)->0, state, t1) is None,
{
    let previous = ready_of(node);
    let kept = match node.arr_at2("status"@, "conditions"@) {
        Some(c) => conditions::others(c, seq!["Ready"@]),
        None => Seq::empty(),
    };
    let cond = ready_doc(state, t0, previous);
    let stored = published_node(node, state, t0)->0;
    condition_fields(state, t0, previous);
    assert(stored.arr_at2("status"@, "conditions"@) == Some(kept.push(cond)));
    assert forall|k: int| 0 <= k < kept.len() implies (#[trigger] kept[k]).str_at("type"@) != Some(
        "Ready"@,
    ) by {
        match node.arr_at2("status"@, "conditions"@) {
            Some(c) => {
                conditions::others_survive(c, seq!["Ready"@], kept[k]);
                assert(kept.contains(kept[k]));
                assert(seq!["Ready"@][0] == "Ready"@);
                assert(seq!["Ready"@].contains("Ready"@));
            },
            None => {},
        }
    }
    first_ready_at_end(kept, cond, 0);
}

/// A lease is renewed at first, and then once ten seconds have passed and not before.
pub proof fn when_a_lease_is_renewed(last: Instant, now: Instant)
    requires
        last@ <= now@,
    ensures
        renewal_is_due(None, now),
        renewal_is_due(Some(last), now) <==> now@ >= last@ + 10_000_000_000,
{
}

/// A lease is held by its node, under the name of the node, for forty seconds from when it says.
pub proof fn what_a_lease_says(node: Seq<char>, renew_time: Seq<char>, transitions: int)
    ensures
        ({
            let d = lease_doc(node, renew_time, transitions);
            &&& d.str_at("kind"@) == Some("Lease"@)
            &&& d.str_at2("metadata"@, "name"@) == Some(node)
            &&& d.str_at2("metadata"@, "namespace"@) == Some("kube-node-lease"@)
            &&& d.str_at2("spec"@, "holderIdentity"@) == Some(node)
            &&& d.str_at2("spec"@, "renewTime"@) == Some(renew_time)
            &&& d.get2("spec"@, "leaseDurationSeconds"@) == Some(Doc::Int(40))
            &&& d.get2("spec"@, "leaseTransitions"@) == Some(Doc::Int(transitions))
        }),
{
    reveal_strlit("apiVersion");
    reveal_strlit("kind");
    reveal_strlit("metadata");
    reveal_strlit("spec");
    reveal_strlit("name");
    reveal_strlit("namespace");
    reveal_strlit("holderIdentity");
    reveal_strlit("renewTime");
    reveal_strlit("leaseDurationSeconds");
    reveal_strlit("leaseTransitions");
    assert("apiVersion"@.len() == 10);
    assert("kind"@.len() == 4);
    assert("kind"@[0] == 'k');
    assert("spec"@[0] == 's');
    assert("metadata"@.len() == 8);
    assert("spec"@.len() == 4);
    assert("name"@.len() == 4);
    assert("namespace"@.len() == 9);
    assert("holderIdentity"@.len() == 14);
    assert("renewTime"@.len() == 9);
    assert("leaseDurationSeconds"@.len() == 20);
    assert("leaseTransitions"@.len() == 16);
    let d = lease_doc(node, renew_time, transitions);
    assert(d.get("metadata"@) is Some);
    assert(d.get("spec"@) is Some);
}

/// A node is told to be ready only where its heartbeat is fresh. Where it is not nothing is known of
/// it, and the reason tells whether there ever was one.
pub proof fn what_is_told_of_a_node()
    ensures
        ready_status(NodeReadiness::Ready) == "True"@,
        ready_status(NodeReadiness::Stale) == "Unknown"@,
        ready_status(NodeReadiness::Unknown) == "Unknown"@,
        ready_reason(NodeReadiness::Ready) == "KubeletReady"@,
        ready_reason(NodeReadiness::Stale) == "NodeStatusUnknown"@,
        ready_reason(NodeReadiness::Unknown) == "NodeStatusNeverUpdated"@,
{
}

/// The moment at which a node changed is carried over exactly where its status stays what it was.
pub proof fn when_a_node_changed(state: NodeReadiness, now: Seq<char>, previous: Doc)
    ensures
        transition_time(state, now, None) == now,
        previous.str_at("status"@) != Some(ready_status(state)) ==> transition_time(
            state,
            now,
            Some(previous),
        ) == now,
        previous.str_at("status"@) == Some(ready_status(state)) ==> match previous.str_at(
            "lastTransitionTime"@,
        ) {
            Some(t) => transition_time(state, now, Some(previous)) == t,
            None => transition_time(state, now, Some(previous)) == now,
        },
{
}

/// The condition that counts is the first of its type.
pub proof fn the_first_ready_counts(list: Seq<Doc>, i: int)
    requires
        0 <= i,
    ensures
        match first_ready(list, i) {
            Some(c) => exists|k: int|
                i <= k < list.len() && (#[trigger] list[k]) == c && c.str_at("type"@) == Some(
                    "Ready"@,
                ) && forall|j: int|
                    i <= j < k ==> (#[trigger] list[j]).str_at("type"@) != Some("Ready"@),
            None => forall|k: int|
                i <= k < list.len() ==> (#[trigger] list[k]).str_at("type"@) != Some("Ready"@),
        },
    decreases list.len() - i,
{
    if i < list.len() {
        if list[i].str_at("type"@) == Some("Ready"@) {
            assert(list[i] == first_ready(list, i).unwrap());
        } else {
            the_first_ready_counts(list, i + 1);
        }
    }
}

/// A node is written exactly where its status or the reason for it changes. What is written tells its
/// readiness once, with the status and the reason of now, and every condition of another type stays.
pub proof fn what_is_written_of_a_node(node: Doc, state: NodeReadiness, now: Seq<char>, c: Doc)
    requires
        node is Obj,
        node.get("status"@) matches Some(s) ==> s is Obj,
        c.str_at("type"@) != Some("Ready"@),
    ensures
        published_node(node, state, now) is None <==> ready_of(node) is Some && ready_of(
            node,
        ).unwrap().get("status"@) == Some(Doc::Str(ready_status(state))) && ready_of(
            node,
        ).unwrap().get("reason"@) == Some(Doc::Str(ready_reason(state))),
        published_node(node, state, now) matches Some(n) ==> {
            let list = n.arr_at2("status"@, "conditions"@).unwrap();
            &&& n.arr_at2("status"@, "conditions"@) is Some
            &&& list.len() > 0
            &&& list.last().str_at("type"@) == Some("Ready"@)
            &&& list.last().str_at("status"@) == Some(ready_status(state))
            &&& list.last().str_at("reason"@) == Some(ready_reason(state))
            &&& list.last().str_at("lastHeartbeatTime"@) == Some(now)
            &&& list.last().str_at("lastTransitionTime"@) == Some(
                transition_time(state, now, ready_of(node)),
            )
            &&& forall|i: int|
                0 <= i < list.len() - 1 ==> (#[trigger] list[i]).str_at("type"@) != Some("Ready"@)
            &&& list.contains(c) <==> node.arr_at2("status"@, "conditions"@) is Some
                && node.arr_at2("status"@, "conditions"@).unwrap().contains(c)
        },
{
    if published_node(node, state, now) is Some {
        let previous = ready_of(node);
        let n = published_node(node, state, now).unwrap();
        let kept = match node.arr_at2("status"@, "conditions"@) {
            Some(all) => conditions::others(all, seq!["Ready"@]),
            None => Seq::empty(),
        };
        let one = ready_doc(state, now, previous);
        condition_fields(state, now, previous);
        let list = kept.push(one);
        assert(n.get("status"@) is Some);
        assert(n.arr_at2("status"@, "conditions"@) == Some(list));
        assert(list.last() == one);
        assert(seq!["Ready"@].contains("Ready"@)) by {
            assert(seq!["Ready"@][0] == "Ready"@);
        }
        assert forall|i: int| 0 <= i < list.len() - 1 implies (#[trigger] list[i]).str_at("type"@)
            != Some("Ready"@) by {
            assert(list[i] == kept[i]);
            assert(kept.contains(kept[i]));
            let all = node.arr_at2("status"@, "conditions"@).unwrap();
            conditions::others_survive(all, seq!["Ready"@], kept[i]);
        }
        assert(!conditions::has_type(c, seq!["Ready"@]));
        if let Some(all) = node.arr_at2("status"@, "conditions"@) {
            conditions::others_survive(all, seq!["Ready"@], c);
        }
        if list.contains(c) {
            let i = choose|i: int| 0 <= i < list.len() && list[i] == c;
            assert(i < kept.len());
            assert(kept[i] == c);
        }
        if kept.contains(c) {
            let i = choose|i: int| 0 <= i < kept.len() && kept[i] == c;
            assert(list[i] == c);
        }
    }
}

} // verus!
