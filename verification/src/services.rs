//! The names under which services are found.

use vstd::prelude::*;
use crate::json::{self, Doc, Json};
use crate::resource::{self, KeyView, ResourceKey};
use crate::text::{self, cat3, cat5, cat7, insert_ascending, same};

verus! {

/// The domain of a cluster's names, where nothing else is said.
pub const DEFAULT_CLUSTER_DOMAIN: &'static str = "cluster.local";

/// What a list of services stands for.
pub open spec fn service_views(v: Seq<(ResourceKey, Json)>) -> Seq<(KeyView, Doc)> {
    v.map_values(|e: (ResourceKey, Json)| (e.0@, e.1@))
}

// ---- names that lead to a service ----------------------------------------------------------

/// The address of a service, where it has one of its own.
pub open spec fn cluster_ip(service: Doc) -> Option<Seq<char>> {
    match service.str_at2("spec"@, "clusterIP"@) {
        Some(ip) => if ip.len() == 0 || ip == "None"@ {
            None
        } else {
            Some(ip)
        },
        None => None,
    }
}

/// The names of a service with its address, as they are added to a container: the full names, and
/// the bare one where the container is in the service's namespace. A service without an address of
/// its own has none.
pub open spec fn hosts_of(
    service: (KeyView, Doc),
    namespace: Seq<char>,
    domain: Seq<char>,
) -> Set<Seq<char>> {
    match (cluster_ip(service.1), service.1.str_at2("metadata"@, "name"@)) {
        (Some(ip), Some(name)) => {
            let ns = resource::namespace_of(service.0);
            let full = set![
                name + "."@ + ns + ":"@ + ip,
                name + "."@ + ns + ".svc."@ + domain + ":"@ + ip,
            ];
            if ns == namespace {
                full.insert(name + ":"@ + ip)
            } else {
                full
            }
        },
        _ => Set::empty(),
    }
}

/// The names of services with their addresses.
pub open spec fn all_hosts(
    services: Seq<(KeyView, Doc)>,
    namespace: Seq<char>,
    domain: Seq<char>,
) -> Set<Seq<char>>
    decreases services.len(),
{
    if services.len() == 0 {
        Set::empty()
    } else {
        all_hosts(services.drop_last(), namespace, domain).union(
            hosts_of(services.last(), namespace, domain),
        )
    }
}

fn add_hosts(
    out: &mut Vec<String>,
    key: &ResourceKey,
    service: &Json,
    namespace: &str,
    cluster_domain: &str,
)
    requires
        text::ascending(text::texts(old(out)@)),
    ensures
        text::ascending(text::texts(final(out)@)),
        text::texts(final(out)@).to_set() == text::texts(old(out)@).to_set().union(
            hosts_of((key@, service@), namespace@, cluster_domain@),
        ),
{
    let ghost before = text::texts(out@).to_set();
    let ip = match service.str_at2("spec", "clusterIP") {
        Some(ip) => ip,
        None => {
            assert(before.union(Set::empty()) =~= before);
            return ;
        },
    };
    if ip.is_empty() || same(ip, "None") {
        assert(before.union(Set::empty()) =~= before);
        return ;
    }
    let name = match service.str_at2("metadata", "name") {
        Some(n) => n,
        None => {
            assert(before.union(Set::empty()) =~= before);
            return ;
        },
    };
    let ns = key.namespace_or_default();
    insert_ascending(out, cat5(name, ".", ns, ":", ip));
    insert_ascending(out, cat7(name, ".", ns, ".svc.", cluster_domain, ":", ip));
    if same(ns, namespace) {
        insert_ascending(out, cat3(name, ":", ip));
    }
    assert(text::texts(out@).to_set() =~= before.union(
        hosts_of((key@, service@), namespace@, cluster_domain@),
    ));
}

/// The names of services with their addresses, for a container in this namespace, in order, each
/// once.
pub fn service_cluster_ip_hosts(
    namespace: &str,
    services: &[(ResourceKey, Json)],
    cluster_domain: &str,
) -> (r: Vec<String>)
    ensures
        text::texts(r@) == text::sorted(
            all_hosts(service_views(services@), namespace@, cluster_domain@),
        ),
        text::ascending(text::texts(r@)),
        text::texts(r@).to_set() == all_hosts(
            service_views(services@),
            namespace@,
            cluster_domain@,
        ),
{
    let ghost all = service_views(services@);
    let mut out: Vec<String> = Vec::new();
    let mut i: usize = 0;
    assert(all.take(0) =~= Seq::<(KeyView, Doc)>::empty());
    assert(text::texts(out@).to_set() =~= Set::<Seq<char>>::empty());
    while i < services.len()
        invariant
            i <= services@.len(),
            all == service_views(services@),
            text::ascending(text::texts(out@)),
            text::texts(out@).to_set() == all_hosts(
                all.take(i as int),
                namespace@,
                cluster_domain@,
            ),
        decreases services@.len() - i,
    {
        assert(all.take(i + 1).drop_last() =~= all.take(i as int));
        assert(all.take(i + 1).last() == (services@[i as int].0@, services@[i as int].1@));
        add_hosts(&mut out, &services[i].0, &services[i].1, namespace, cluster_domain);
        i += 1;
    }
    assert(all.take(i as int) =~= all);
    proof {
        text::ascending_is_unique(
            text::texts(out@),
            text::sorted(all_hosts(all, namespace@, cluster_domain@)),
        );
    }
    out
}

// ---- names that lead to a pod --------------------------------------------------------------

/// Whether labels have what a selector asks for. A selector that asks for nothing selects nothing.
pub open spec fn selects(selector: Doc, pod: Doc) -> bool {
    match selector {
        Doc::Obj(m) => {
            &&& exists|k: Seq<char>| #[trigger] m.dom().contains(k)
            &&& forall|k: Seq<char>| #[trigger]
                m.dom().contains(k) ==> m[k].text() is Some && (match pod.get2(
                    "metadata"@,
                    "labels"@,
                ) {
                    Some(labels) => labels.str_at(k) == m[k].text(),
                    None => false,
                })
        },
        _ => false,
    }
}

/// Whether a service is for a pod.
pub open spec fn is_for(service: Doc, pod: Doc) -> bool {
    service.get2("spec"@, "selector"@) matches Some(s) && selects(s, pod)
}

/// Whether a pod's labels have what a selector asks for.
pub fn matches_labels(pod: &Json, selector: &Json) -> (r: bool)
    ensures
        r == selects(selector@, pod@),
{
    let keys = match selector.keys() {
        Some(k) => k,
        None => {
            return false;
        },
    };
    let ghost all = text::texts(keys@);
    let ghost m = match selector@ {
        Doc::Obj(m) => m,
        _ => Map::empty(),
    };
    if keys.len() == 0 {
        proof {
            assert forall|k: Seq<char>| !#[trigger] m.dom().contains(k) by {
                assert(!all.contains(k));
            }
        }
        return false;
    }
    assert(m.dom().contains(all[0])) by {
        assert(all[0] == keys@[0]@);
        assert(all.contains(all[0]));
    }
    let labels = pod.get2("metadata", "labels");
    let mut i: usize = 0;
    while i < keys.len()
        invariant
            i <= keys@.len(),
            all == text::texts(keys@),
            selector@ == Doc::Obj(m),
            forall|k: Seq<char>| m.dom().contains(k) <==> #[trigger] all.contains(k),
            json::same_doc(labels, pod@.get2("metadata"@, "labels"@)),
            forall|j: int|
                #![trigger all[j]]
                0 <= j < i ==> m[all[j]].text() is Some && (match pod@.get2(
                    "metadata"@,
                    "labels"@,
                ) {
                    Some(l) => l.str_at(all[j]) == m[all[j]].text(),
                    None => false,
                }),
        decreases keys@.len() - i,
    {
        let key = keys[i].as_str();
        assert(all[i as int] == key@);
        assert(all.contains(key@));
        let want = selector.str_at(key);
        let have = match labels {
            Some(l) => l.str_at(key),
            None => None,
        };
        let fits = match (want, have) {
            (Some(a), Some(b)) => same(a, b),
            _ => false,
        };
        if !fits {
            assert(m.dom().contains(key@));
            return false;
        }
        i += 1;
    }
    proof {
        assert forall|k: Seq<char>| #[trigger] m.dom().contains(k) implies m[k].text() is Some && (
        match pod@.get2("metadata"@, "labels"@) {
            Some(l) => l.str_at(k) == m[k].text(),
            None => false,
        }) by {
            assert(all.contains(k));
            let j = choose|j: int| 0 <= j < all.len() && all[j] == k;
            assert(all[j] == k);
        }
    }
    true
}

/// The names under which a pod is found for a service.
pub open spec fn aliases_of(service: Doc, pod: Doc, namespace: Seq<char>, domain: Seq<char>) -> Set<
    Seq<char>,
> {
    match service.str_at2("metadata"@, "name"@) {
        Some(name) => if is_for(service, pod) {
            set![
                name,
                name + "."@ + namespace,
                name + "."@ + namespace + ".svc."@ + domain,
            ]
        } else {
            Set::empty()
        },
        None => Set::empty(),
    }
}

/// The names under which a pod is found for services.
pub open spec fn all_aliases(
    services: Seq<(KeyView, Doc)>,
    pod: Doc,
    namespace: Seq<char>,
    domain: Seq<char>,
) -> Set<Seq<char>>
    decreases services.len(),
{
    if services.len() == 0 {
        Set::empty()
    } else {
        all_aliases(services.drop_last(), pod, namespace, domain).union(
            aliases_of(services.last().1, pod, namespace, domain),
        )
    }
}

fn add_aliases(out: &mut Vec<String>, service: &Json, pod: &Json, namespace: &str, domain: &str)
    requires
        text::ascending(text::texts(old(out)@)),
    ensures
        text::ascending(text::texts(final(out)@)),
        text::texts(final(out)@).to_set() == text::texts(old(out)@).to_set().union(
            aliases_of(service@, pod@, namespace@, domain@),
        ),
{
    let ghost before = text::texts(out@).to_set();
    let selected = match service.get2("spec", "selector") {
        Some(s) => matches_labels(pod, s),
        None => false,
    };
    if selected {
        if let Some(name) = service.str_at2("metadata", "name") {
            insert_ascending(out, name.to_owned());
            insert_ascending(out, cat3(name, ".", namespace));
            insert_ascending(out, cat5(name, ".", namespace, ".svc.", domain));
        }
    }
    assert(text::texts(out@).to_set() =~= before.union(
        aliases_of(service@, pod@, namespace@, domain@),
    ));
}

/// The names under which a pod is found for the services that are for it, in order, each once.
pub fn service_aliases_for_pod(
    pod: &Json,
    namespace: &str,
    services: &[(ResourceKey, Json)],
    cluster_domain: &str,
) -> (r: Vec<String>)
    ensures
        text::texts(r@) == text::sorted(
            all_aliases(service_views(services@), pod@, namespace@, cluster_domain@),
        ),
        text::ascending(text::texts(r@)),
        text::texts(r@).to_set() == all_aliases(
            service_views(services@),
            pod@,
            namespace@,
            cluster_domain@,
        ),
{
    let ghost all = service_views(services@);
    let mut out: Vec<String> = Vec::new();
    let mut i: usize = 0;
    assert(all.take(0) =~= Seq::<(KeyView, Doc)>::empty());
    assert(text::texts(out@).to_set() =~= Set::<Seq<char>>::empty());
    while i < services.len()
        invariant
            i <= services@.len(),
            all == service_views(services@),
            text::ascending(text::texts(out@)),
            text::texts(out@).to_set() == all_aliases(
                all.take(i as int),
                pod@,
                namespace@,
                cluster_domain@,
            ),
        decreases services@.len() - i,
    {
        assert(all.take(i + 1).drop_last() =~= all.take(i as int));
        assert(all.take(i + 1).last() == (services@[i as int].0@, services@[i as int].1@));
        add_aliases(&mut out, &services[i].1, pod, namespace, cluster_domain);
        i += 1;
    }
    assert(all.take(i as int) =~= all);
    proof {
        text::ascending_is_unique(
            text::texts(out@),
            text::sorted(all_aliases(all, pod@, namespace@, cluster_domain@)),
        );
    }
    out
}

/// The names under which a pod is reached, in order, with these services in its namespace.
pub open spec fn alias_names(own: Seq<(KeyView, Doc)>, namespace: Seq<char>, pod: Doc) -> Seq<
    Seq<char>,
> {
    text::sorted(all_aliases(own, pod, namespace, DEFAULT_CLUSTER_DOMAIN@))
}

/// The names that a pod resolves by itself, in order, with these services in all namespaces.
pub open spec fn host_names(all: Seq<(KeyView, Doc)>, namespace: Seq<char>) -> Seq<Seq<char>> {
    text::sorted(all_hosts(all, namespace, DEFAULT_CLUSTER_DOMAIN@))
}

/// What a container needs to find services and to be found for them: its names, and the names of
/// services with their addresses. `own` are the services of its namespace, `all` those of every
/// namespace.
pub fn service_name_resolution(
    pod: &Json,
    namespace: &str,
    own: &[(ResourceKey, Json)],
    all: &[(ResourceKey, Json)],
) -> (r: (Vec<String>, Vec<String>))
    ensures
        text::texts(r.0@) == alias_names(service_views(own@), namespace@, pod@),
        text::texts(r.1@) == host_names(service_views(all@), namespace@),
{
    let aliases = service_aliases_for_pod(pod, namespace, own, DEFAULT_CLUSTER_DOMAIN);
    let hosts = service_cluster_ip_hosts(namespace, all, DEFAULT_CLUSTER_DOMAIN);
    (aliases, hosts)
}

// ---- laws ----------------------------------------------------------------------------------

/// A service without an address of its own adds no names of addresses, and one in another
/// namespace does not claim its bare name.
pub proof fn headless_and_foreign_services_claim_nothing(
    service: (KeyView, Doc),
    namespace: Seq<char>,
    domain: Seq<char>,
    ip: Seq<char>,
    name: Seq<char>,
)
    ensures
        cluster_ip(service.1) is None ==> hosts_of(service, namespace, domain) == Set::<
            Seq<char>,
        >::empty(),
        cluster_ip(service.1) == Some(ip) && service.1.str_at2("metadata"@, "name"@) == Some(name)
            && resource::namespace_of(service.0) != namespace ==> !hosts_of(service, namespace, domain).contains(name + ":"@ + ip),
{
    if cluster_ip(service.1) == Some(ip) && service.1.str_at2("metadata"@, "name"@) == Some(name)
        && resource::namespace_of(service.0) != namespace {
        reveal_strlit(".");
        reveal_strlit(":");
        let ns = resource::namespace_of(service.0);
        let bare = name + ":"@ + ip;
        let a = name + "."@ + ns + ":"@ + ip;
        let b = name + "."@ + ns + ".svc."@ + domain + ":"@ + ip;
        assert(bare[name.len() as int] == ':');
        assert(a[name.len() as int] == '.');
        assert(b[name.len() as int] == '.');
    }
}

/// A pod that no service selects has no names, and one that is selected has three for each.
pub proof fn only_selecting_services_give_names(
    service: Doc,
    pod: Doc,
    namespace: Seq<char>,
    domain: Seq<char>,
)
    ensures
        !is_for(service, pod) ==> aliases_of(service, pod, namespace, domain) == Set::<
            Seq<char>,
        >::empty(),
        pod.get2("metadata"@, "labels"@) is None ==> !is_for(service, pod),
        service.get2("spec"@, "selector"@) == Some(Doc::Obj(Map::empty())) ==> !is_for(
            service,
            pod,
        ),
{
    if let Some(Doc::Obj(m)) = service.get2("spec"@, "selector"@) {
        if is_for(service, pod) {
            let k = choose|k: Seq<char>| #[trigger] m.dom().contains(k);
            assert(m.dom().contains(k));
        }
    }
}

/// A service with an address of its own is found, under that address, by its name with its namespace
/// and by that with the domain of the cluster, everywhere, and by its bare name in its own namespace.
/// It is found by nothing else, and one without an address, or headless, by nothing.
pub proof fn by_what_a_service_is_found(
    service: (KeyView, Doc),
    namespace: Seq<char>,
    domain: Seq<char>,
    h: Seq<char>,
)
    ensures
        hosts_of(service, namespace, domain).contains(h) <==> {
            &&& service.1.str_at2("spec"@, "clusterIP"@) is Some
            &&& service.1.str_at2("metadata"@, "name"@) is Some
            &&& {
                let ip = service.1.str_at2("spec"@, "clusterIP"@).unwrap();
                let name = service.1.str_at2("metadata"@, "name"@).unwrap();
                let ns = match service.0.namespace {
                    Some(n) => n,
                    None => "default"@,
                };
                &&& ip.len() > 0
                &&& ip != "None"@
                &&& {
                    ||| h == name + "."@ + ns + ":"@ + ip
                    ||| h == name + "."@ + ns + ".svc."@ + domain + ":"@ + ip
                    ||| ns == namespace && h == name + ":"@ + ip
                }
            }
        },
{
}

/// What is found by its name is found for each service of a list, and for no other.
pub proof fn every_service_is_found(
    services: Seq<(KeyView, Doc)>,
    namespace: Seq<char>,
    domain: Seq<char>,
    h: Seq<char>,
)
    ensures
        all_hosts(services, namespace, domain).contains(h) <==> exists|i: int|
            0 <= i < services.len() && (#[trigger] hosts_of(services[i], namespace, domain)).contains(
                h,
            ),
    decreases services.len(),
{
    if services.len() > 0 {
        let front = services.drop_last();
        every_service_is_found(front, namespace, domain, h);
        if all_hosts(front, namespace, domain).contains(h) {
            let i = choose|i: int|
                0 <= i < front.len() && (#[trigger] hosts_of(
                    front[i],
                    namespace,
                    domain,
                )).contains(h);
            assert(hosts_of(services[i], namespace, domain).contains(h));
        }
        if hosts_of(services.last(), namespace, domain).contains(h) {
            assert(hosts_of(services[services.len() - 1], namespace, domain).contains(h));
        }
        if exists|i: int|
            0 <= i < services.len() && (#[trigger] hosts_of(
                services[i],
                namespace,
                domain,
            )).contains(h) {
            let i = choose|i: int|
                0 <= i < services.len() && (#[trigger] hosts_of(
                    services[i],
                    namespace,
                    domain,
                )).contains(h);
            if i < front.len() {
                assert(hosts_of(front[i], namespace, domain).contains(h));
            }
        }
    }
}

/// A selector that asks for something selects a pod that has every label that it asks for, with that
/// value. A single one that the pod lacks, or has with another value, and it does not.
pub proof fn every_label_counts(m: Map<Seq<char>, Doc>, pod: Doc, labels: Doc, k: Seq<char>)
    requires
        m.dom().contains(k),
        pod.get2("metadata"@, "labels"@) == Some(labels),
    ensures
        labels.str_at(k) is None || m[k] != Doc::Str(labels.str_at(k).unwrap()) ==> !selects(
            Doc::Obj(m),
            pod,
        ),
        (forall|n: Seq<char>| #[trigger]
            m.dom().contains(n) ==> labels.str_at(n) is Some && m[n] == Doc::Str(
                labels.str_at(n).unwrap(),
            )) ==> selects(Doc::Obj(m), pod),
{
}

/// A pod is reached for a service that selects it by the name of the service, by that with the
/// namespace, and by that with the domain of the cluster, and by nothing else.
pub proof fn by_what_a_pod_is_reached(
    service: Doc,
    pod: Doc,
    namespace: Seq<char>,
    domain: Seq<char>,
    h: Seq<char>,
)
    ensures
        aliases_of(service, pod, namespace, domain).contains(h) <==> {
            &&& service.get2("spec"@, "selector"@) is Some
            &&& selects(service.get2("spec"@, "selector"@).unwrap(), pod)
            &&& service.str_at2("metadata"@, "name"@) is Some
            &&& {
                let name = service.str_at2("metadata"@, "name"@).unwrap();
                ||| h == name
                ||| h == name + "."@ + namespace
                ||| h == name + "."@ + namespace + ".svc."@ + domain
            }
        },
{
}

/// A pod is reached for each service of a list, and for no other.
pub proof fn a_pod_is_reached_for_every_service(
    services: Seq<(KeyView, Doc)>,
    pod: Doc,
    namespace: Seq<char>,
    domain: Seq<char>,
    h: Seq<char>,
)
    ensures
        all_aliases(services, pod, namespace, domain).contains(h) <==> exists|i: int|
            0 <= i < services.len() && (#[trigger] aliases_of(
                services[i].1,
                pod,
                namespace,
                domain,
            )).contains(h),
    decreases services.len(),
{
    if services.len() > 0 {
        let front = services.drop_last();
        a_pod_is_reached_for_every_service(front, pod, namespace, domain, h);
        if all_aliases(front, pod, namespace, domain).contains(h) {
            let i = choose|i: int|
                0 <= i < front.len() && (#[trigger] aliases_of(
                    front[i].1,
                    pod,
                    namespace,
                    domain,
                )).contains(h);
            assert(aliases_of(services[i].1, pod, namespace, domain).contains(h));
        }
        if aliases_of(services.last().1, pod, namespace, domain).contains(h) {
            assert(aliases_of(
                services[services.len() - 1].1,
                pod,
                namespace,
                domain,
            ).contains(h));
        }
        if exists|i: int|
            0 <= i < services.len() && (#[trigger] aliases_of(
                services[i].1,
                pod,
                namespace,
                domain,
            )).contains(h) {
            let i = choose|i: int|
                0 <= i < services.len() && (#[trigger] aliases_of(
                    services[i].1,
                    pod,
                    namespace,
                    domain,
                )).contains(h);
            if i < front.len() {
                assert(aliases_of(front[i].1, pod, namespace, domain).contains(h));
            }
        }
    }
}

/// The names of a pod are all that it is reached by, in order and each once; likewise those that it
/// resolves by itself, with the domain that every cluster has.
pub proof fn names_are_told_in_order(
    services: Seq<(KeyView, Doc)>,
    namespace: Seq<char>,
    pod: Doc,
    names: Seq<Seq<char>>,
    hosts: Seq<Seq<char>>,
)
    requires
        text::ascending(names),
        names.to_set() == all_aliases(services, pod, namespace, "cluster.local"@),
        text::ascending(hosts),
        hosts.to_set() == all_hosts(services, namespace, "cluster.local"@),
    ensures
        alias_names(services, namespace, pod) == names,
        host_names(services, namespace) == hosts,
{
    text::ascending_is_unique(
        names,
        text::sorted(all_aliases(services, pod, namespace, "cluster.local"@)),
    );
    text::ascending_is_unique(
        hosts,
        text::sorted(all_hosts(services, namespace, "cluster.local"@)),
    );
}

/// Services are told whole, in their order.
pub proof fn services_are_told_whole(v: Seq<(ResourceKey, Json)>, i: int)
    requires
        0 <= i < v.len(),
    ensures
        service_views(v).len() == v.len(),
        service_views(v)[i].0 == v[i].0@,
        service_views(v)[i].1 == v[i].1@,
{
}

} // verus!
