//! The containers that a manifest asks for.

use vstd::prelude::*;
use crate::backend::{self, ContainerSpec, PodIdentity, PullPolicy, SpecView};
use crate::env_ref::{self, expand_env_refs};
use crate::error::{self, KubeletError};
use crate::json::{self, Doc, Json};
use crate::lifecycle::{self, InitKind, RestartPolicy};
use crate::number::{self, decimal_u64};
use crate::pod_env::{self, refuse, resolve_own_entry, EnvSources, SourcesView};
use crate::quantity::{self, Resources};
use crate::table::Table;
use crate::text::{self, cat2, cat3, cat4, cat5, same};
use crate::time::{self, Duration};

verus! {

/// Which of a pod's containers.
#[derive(Clone, Copy, Debug, PartialEq, Eq, Structural)]
pub enum ContainerList {
    /// Those that it is for. It must have some.
    App,
    /// Those that run before.
    Init,
}

/// The field of a manifest that lists the containers.
pub open spec fn list_field(l: ContainerList) -> Seq<char> {
    match l {
        ContainerList::App => "containers"@,
        ContainerList::Init => "initContainers"@,
    }
}

impl ContainerList {
    /// The field of a manifest that lists the containers.
    pub fn field(self) -> (r: &'static str)
        ensures
            r@ == list_field(self),
    {
        match self {
            ContainerList::App => "containers",
            ContainerList::Init => "initContainers",
        }
    }
}

/// The name of a container: the one it has, or else one for its place.
pub open spec fn container_name(c: Doc, i: int) -> Seq<char> {
    match c.str_at("name"@) {
        Some(n) => n,
        None => if i == 0 {
            "main"@
        } else {
            "container-"@ + number::decimal(i)
        },
    }
}

/// The name of the container at place `i`: the one it has, or else one for its place.
pub fn name_of(c: &Json, i: usize) -> (r: String)
    ensures
        r@ == container_name(c@, i as int),
{
    match c.str_at("name") {
        Some(n) => n.to_owned(),
        None => if i == 0 {
            "main".to_owned()
        } else {
            cat2("container-", decimal_u64(i as u64).as_str())
        },
    }
}

/// What the runtime calls a container. An init container is told from another one of its name.
pub open spec fn runtime_name(
    namespace: Seq<char>,
    pod: Seq<char>,
    list: ContainerList,
    cname: Seq<char>,
) -> Seq<char> {
    match list {
        ContainerList::App => namespace + "_"@ + pod + "_"@ + cname,
        ContainerList::Init => namespace + "_"@ + pod + "_init-"@ + cname,
    }
}

/// The variables of a container, or why there are none. What is written out may refer to the
/// variables before it; what is taken from elsewhere is taken as it is.
pub open spec fn container_env(
    namespace: Seq<char>,
    pod_name: Seq<char>,
    pod: Doc,
    cname: Seq<char>,
    own: Doc,
    env: Seq<Doc>,
    sources: SourcesView,
) -> Result<Map<Seq<char>, Seq<char>>, Seq<char>>
    decreases env.len(),
{
    if env.len() == 0 {
        Ok(Map::empty())
    } else {
        match container_env(namespace, pod_name, pod, cname, own, env.drop_last(), sources) {
            Err(e) => Err(e),
            Ok(vars) => match pod_env::own_entry(
                namespace,
                pod_name,
                pod,
                cname,
                Some(own),
                env.last(),
                sources,
            ) {
                Err(e) => Err(e),
                Ok((k, v)) => Ok(
                    vars.insert(
                        k,
                        if env.last().get("value"@) is Some {
                            env_ref::expanded(v, vars)
                        } else {
                            v
                        },
                    ),
                ),
            },
        }
    }
}

fn read_env(
    namespace: &str,
    pod_name: &str,
    pod: &Json,
    cname: &str,
    own: &Json,
    env: &Vec<Json>,
    sources: &EnvSources,
) -> (r: Result<Table<String>, KubeletError>)
    ensures
        match container_env(namespace@, pod_name@, pod@, cname@, own@, json::docs(env@), sources@) {
            Ok(vars) => r matches Ok(t) && env_ref::variables(t) == vars,
            Err(reason) => r matches Err(e) && error::invalid_pod(
                e,
                pod_env::pod_label(namespace@, pod_name@),
                reason,
            ),
        },
{
    let ghost all = json::docs(env@);
    let mut out: Table<String> = Table::new();
    let mut i: usize = 0;
    assert(all.take(0) =~= Seq::<Doc>::empty());
    assert(env_ref::variables(out) =~= Map::<Seq<char>, Seq<char>>::empty());
    while i < env.len()
        invariant
            i <= env@.len(),
            all == json::docs(env@),
            container_env(namespace@, pod_name@, pod@, cname@, own@, all.take(i as int), sources@)
                == Ok::<Map<Seq<char>, Seq<char>>, Seq<char>>(env_ref::variables(out)),
        decreases env@.len() - i,
    {
        proof {
            json::docs_index(env@);
        }
        assert(all.take(i + 1).drop_last() =~= all.take(i as int));
        assert(all.take(i + 1).last() == env@[i as int]@);
        match resolve_own_entry(namespace, pod_name, pod, cname, Some(own), &env[i], sources) {
            Err(e) => {
                proof {
                    first_error_stays(
                        namespace@,
                        pod_name@,
                        pod@,
                        cname@,
                        own@,
                        all,
                        i + 1,
                        sources@,
                    );
                }
                return Err(e);
            },
            Ok((k, v)) => {
                let ghost vars = env_ref::variables(out);
                let value = if env[i].get("value").is_some() {
                    expand_env_refs(v.as_str(), &out)
                } else {
                    v
                };
                let ghost value_text = value@;
                out.insert(k.as_str(), value);
                assert(env_ref::variables(out) =~= vars.insert(k@, value_text));
            },
        }
        i += 1;
    }
    proof {
        json::docs_index(env@);
    }
    assert(all.take(i as int) =~= all);
    Ok(out)
}

proof fn first_error_stays(
    namespace: Seq<char>,
    pod_name: Seq<char>,
    pod: Doc,
    cname: Seq<char>,
    own: Doc,
    env: Seq<Doc>,
    n: int,
    sources: SourcesView,
)
    requires
        0 <= n <= env.len(),
        container_env(namespace, pod_name, pod, cname, own, env.take(n), sources) is Err,
    ensures
        container_env(namespace, pod_name, pod, cname, own, env, sources) == container_env(
            namespace,
            pod_name,
            pod,
            cname,
            own,
            env.take(n),
            sources,
        ),
    decreases env.len(),
{
    if n < env.len() {
        assert(env.drop_last().take(n) =~= env.take(n));
        first_error_stays(namespace, pod_name, pod, cname, own, env.drop_last(), n, sources);
    } else {
        assert(env.take(n) =~= env);
    }
}

/// The texts of a list, with their references to variables replaced. What is no text is passed
/// over.
pub open spec fn words(list: Seq<Doc>, vars: Map<Seq<char>, Seq<char>>) -> Seq<Seq<char>>
    decreases list.len(),
{
    if list.len() == 0 {
        Seq::empty()
    } else {
        let rest = words(list.drop_last(), vars);
        match list.last().text() {
            Some(s) => rest.push(env_ref::expanded(s, vars)),
            None => rest,
        }
    }
}

/// The words of a field that lists them.
pub open spec fn words_at(c: Doc, field: Seq<char>, vars: Map<Seq<char>, Seq<char>>) -> Seq<
    Seq<char>,
> {
    match c.arr_at(field) {
        Some(list) => words(list, vars),
        None => Seq::empty(),
    }
}

fn add_words(out: &mut Vec<String>, c: &Json, field: &str, vars: &Table<String>)
    ensures
        text::texts(final(out)@) == text::texts(old(out)@) + words_at(
            c@,
            field@,
            env_ref::variables(*vars),
        ),
{
    let ghost before = text::texts(out@);
    let ghost known = env_ref::variables(*vars);
    if let Some(list) = c.arr_at(field) {
        let ghost all = json::docs(list@);
        let mut i: usize = 0;
        assert(all.take(0) =~= Seq::<Doc>::empty());
        assert(before + words(all.take(0), known) =~= before);
        while i < list.len()
            invariant
                i <= list@.len(),
                all == json::docs(list@),
                known == env_ref::variables(*vars),
                text::texts(out@) == before + words(all.take(i as int), known),
            decreases list@.len() - i,
        {
            proof {
                json::docs_index(list@);
            }
            assert(all.take(i + 1).drop_last() =~= all.take(i as int));
            assert(all.take(i + 1).last() == list@[i as int]@);
            if let Some(s) = list[i].as_str() {
                let ghost was = out@;
                let w = expand_env_refs(s, vars);
                out.push(w);
                assert(text::texts(out@) =~= text::texts(was).push(w@));
                assert(text::texts(out@) =~= before + words(all.take(i + 1), known));
            }
            i += 1;
        }
        proof {
            json::docs_index(list@);
        }
        assert(all.take(i as int) =~= all);
    } else {
        assert(before + Seq::<Seq<char>>::empty() =~= before);
    }
}

/// The kind of a container, or why it cannot be of one. Only an init container may say how it is
/// restarted.
pub open spec fn kind_of(list: ContainerList, cname: Seq<char>, policy: Option<Seq<char>>) -> Result<
    InitKind,
    Seq<char>,
> {
    match list {
        ContainerList::Init => match policy {
            None => Ok(InitKind::Regular),
            Some(s) => if s == "Always"@ {
                Ok(InitKind::Sidecar)
            } else {
                Err("initContainers["@ + cname + "]: "@ + lifecycle::init_kind_error_text(s))
            },
        },
        ContainerList::App => match policy {
            None => Ok(InitKind::Regular),
            Some(_) => Err(
                "containers["@ + cname + "]: restartPolicy is not permitted on an app container"@,
            ),
        },
    }
}

fn read_kind(list: ContainerList, cname: &str, policy: Option<&str>) -> (r: Result<InitKind, String>)
    ensures
        match kind_of(list, cname@, lifecycle::opt_text(policy)) {
            Ok(k) => r == Ok::<InitKind, String>(k),
            Err(reason) => r matches Err(e) && e@ == reason,
        },
{
    match list {
        ContainerList::Init => match InitKind::from_spec_str(policy) {
            Ok(k) => Ok(k),
            Err(e) => Err(cat4("initContainers[", cname, "]: ", e.to_text().as_str())),
        },
        ContainerList::App => match policy {
            None => Ok(InitKind::Regular),
            Some(_) => Err(
                cat3(
                    "containers[",
                    cname,
                    "]: restartPolicy is not permitted on an app container",
                ),
            ),
        },
    }
}

/// How long the containers of a pod are given to end, in seconds.
pub open spec fn grace_secs(pod: Doc) -> nat {
    match pod.get("spec"@) {
        Some(s) => match s.int_at("terminationGracePeriodSeconds"@) {
            Some(n) => if n >= 0 {
                n as nat
            } else {
                30
            },
            None => 30,
        },
        None => 30,
    }
}

/// How long the containers of a pod are given to end.
pub fn grace_of(pod: &Json) -> (r: Duration)
    ensures
        r@ == time::secs(grace_secs(pod@)),
{
    if let Some(s) = pod.get("spec") {
        if let Some(v) = s.get("terminationGracePeriodSeconds") {
            if let Some(n) = v.as_i64() {
                if n >= 0 {
                    return Duration::from_secs(n as u64);
                }
            }
        }
    }
    Duration::from_secs(backend::DEFAULT_GRACE_SECS)
}

/// The container that a manifest asks for, with its name, or why it cannot be run.
pub open spec fn container_spec(
    namespace: Seq<char>,
    pod_name: Seq<char>,
    pod: Doc,
    list: ContainerList,
    i: int,
    c: Doc,
    sources: SourcesView,
) -> Result<(Seq<char>, SpecView), Seq<char>> {
    let cname = container_name(c, i);
    match c.str_at("image"@) {
        None => Err(
            "spec."@ + list_field(list) + "["@ + number::decimal(i) + "].image missing"@,
        ),
        Some(image) => match (match c.arr_at("env"@) {
            Some(env) => container_env(namespace, pod_name, pod, cname, c, env, sources),
            None => Ok(Map::empty()),
        }) {
            Err(e) => Err(e),
            Ok(vars) => match kind_of(list, cname, c.str_at("restartPolicy"@)) {
                Err(e) => Err(e),
                Ok(kind) => Ok(
                    (
                        cname,
                        SpecView {
                            name: runtime_name(namespace, pod_name, list, cname),
                            image,
                            env: vars,
                            command: words_at(c, "command"@, vars) + words_at(c, "args"@, vars),
                            network_aliases: Seq::empty(),
                            pull_policy: Some(backend::pull_resolved(c.str_at("imagePullPolicy"@))),
                            mounts: Seq::empty(),
                            security_context: c.get("securityContext"@),
                            host_add: Seq::empty(),
                            resources: quantity::resources_of(c),
                            init_kind: kind,
                            pod: backend::IdentityView {
                                namespace,
                                name: pod_name,
                                uid: pod_env::or_empty(pod.str_at2("metadata"@, "uid"@)),
                                container_name: cname,
                                init: list is Init,
                            },
                            termination_grace: time::secs(grace_secs(pod)),
                        },
                    ),
                ),
            },
        },
    }
}

fn read_container(
    namespace: &str,
    pod_name: &str,
    pod: &Json,
    list: ContainerList,
    i: usize,
    c: &Json,
    sources: &EnvSources,
) -> (r: Result<(String, ContainerSpec), KubeletError>)
    ensures
        match container_spec(namespace@, pod_name@, pod@, list, i as int, c@, sources@) {
            Ok((cname, view)) => r matches Ok((n, s)) && n@ == cname && s@ == view,
            Err(reason) => r matches Err(e) && error::invalid_pod(
                e,
                pod_env::pod_label(namespace@, pod_name@),
                reason,
            ),
        },
{
    let cname = name_of(c, i);
    let image = match c.str_at("image") {
        Some(s) => s.to_owned(),
        None => {
            let reason = cat5(
                "spec.",
                list.field(),
                "[",
                decimal_u64(i as u64).as_str(),
                "].image missing",
            );
            return Err(refuse(namespace, pod_name, reason));
        },
    };
    let pull_policy = PullPolicy::resolve(c.str_at("imagePullPolicy"));
    let env = match c.arr_at("env") {
        Some(list_of_env) => {
            match read_env(namespace, pod_name, pod, cname.as_str(), c, list_of_env, sources) {
                Ok(t) => t,
                Err(e) => {
                    return Err(e);
                },
            }
        },
        None => {
            let t: Table<String> = Table::new();
            assert(env_ref::variables(t) =~= Map::<Seq<char>, Seq<char>>::empty());
            t
        },
    };
    let mut command: Vec<String> = Vec::new();
    add_words(&mut command, c, "command", &env);
    add_words(&mut command, c, "args", &env);
    let init_kind = match read_kind(list, cname.as_str(), c.str_at("restartPolicy")) {
        Ok(k) => k,
        Err(reason) => {
            return Err(refuse(namespace, pod_name, reason));
        },
    };
    let name = match list {
        ContainerList::App => cat5(namespace, "_", pod_name, "_", cname.as_str()),
        ContainerList::Init => cat5(namespace, "_", pod_name, "_init-", cname.as_str()),
    };
    let uid = match pod.str_at2("metadata", "uid") {
        Some(u) => u.to_owned(),
        None => String::new(),
    };
    let spec = ContainerSpec {
        name,
        image,
        env,
        command,
        network_aliases: Vec::new(),
        pull_policy: Some(pull_policy),
        mounts: Vec::new(),
        security_context: match c.get("securityContext") {
            Some(v) => Some(v.copy()),
            None => None,
        },
        host_add: Vec::new(),
        resources: Resources::from_container_json(c),
        init_kind,
        pod: PodIdentity {
            namespace: namespace.to_owned(),
            name: pod_name.to_owned(),
            uid,
            container_name: cname.clone(),
            init: match list {
                ContainerList::Init => true,
                ContainerList::App => false,
            },
        },
        termination_grace: grace_of(pod),
    };
    proof {
        let vars = env_ref::variables(spec.env);
        assert(spec@.command =~= words_at(c@, "command"@, vars) + words_at(c@, "args"@, vars));
        assert(spec@.network_aliases =~= Seq::<Seq<char>>::empty());
        assert(spec@.host_add =~= Seq::<Seq<char>>::empty());
        assert(spec@.mounts =~= Seq::empty());
    }
    Ok((cname, spec))
}

/// The containers of a list, or what is wrong with the first that cannot be run.
pub open spec fn container_specs(
    namespace: Seq<char>,
    pod_name: Seq<char>,
    pod: Doc,
    list: ContainerList,
    items: Seq<Doc>,
    sources: SourcesView,
) -> Result<Seq<(Seq<char>, SpecView)>, Seq<char>>
    decreases items.len(),
{
    if items.len() == 0 {
        Ok(Seq::empty())
    } else {
        match container_specs(namespace, pod_name, pod, list, items.drop_last(), sources) {
            Err(e) => Err(e),
            Ok(rest) => match container_spec(
                namespace,
                pod_name,
                pod,
                list,
                items.len() - 1,
                items.last(),
                sources,
            ) {
                Err(e) => Err(e),
                Ok(one) => Ok(rest.push(one)),
            },
        }
    }
}

/// The containers that a manifest asks for, or why they cannot be run. A pod without containers
/// cannot; one without init containers can.
pub open spec fn extracted(
    namespace: Seq<char>,
    pod_name: Seq<char>,
    pod: Doc,
    list: ContainerList,
    sources: SourcesView,
) -> Result<Seq<(Seq<char>, SpecView)>, Seq<char>> {
    match pod.arr_at2("spec"@, list_field(list)) {
        None => match list {
            ContainerList::Init => Ok(Seq::empty()),
            ContainerList::App => Err("spec."@ + list_field(list) + " missing"@),
        },
        Some(items) => if items.len() == 0 {
            match list {
                ContainerList::Init => Ok(Seq::empty()),
                ContainerList::App => Err("spec."@ + list_field(list) + " is empty"@),
            }
        } else {
            container_specs(namespace, pod_name, pod, list, items, sources)
        },
    }
}

/// What a list of containers with their names stands for.
pub open spec fn spec_views(v: Seq<(String, ContainerSpec)>) -> Seq<(Seq<char>, SpecView)> {
    v.map_values(|e: (String, ContainerSpec)| (e.0@, e.1@))
}

/// Whether a result is what its model says.
pub open spec fn specs_agree(
    r: Result<Vec<(String, ContainerSpec)>, KubeletError>,
    label: Seq<char>,
    d: Result<Seq<(Seq<char>, SpecView)>, Seq<char>>,
) -> bool {
    match d {
        Ok(list) => r matches Ok(v) && spec_views(v@) == list,
        Err(reason) => r matches Err(e) && error::invalid_pod(e, label, reason),
    }
}

proof fn first_bad_container_stays(
    namespace: Seq<char>,
    pod_name: Seq<char>,
    pod: Doc,
    list: ContainerList,
    items: Seq<Doc>,
    n: int,
    sources: SourcesView,
)
    requires
        0 <= n <= items.len(),
        container_specs(namespace, pod_name, pod, list, items.take(n), sources) is Err,
    ensures
        container_specs(namespace, pod_name, pod, list, items, sources) == container_specs(
            namespace,
            pod_name,
            pod,
            list,
            items.take(n),
            sources,
        ),
    decreases items.len(),
{
    if n < items.len() {
        assert(items.drop_last().take(n) =~= items.take(n));
        first_bad_container_stays(namespace, pod_name, pod, list, items.drop_last(), n, sources);
    } else {
        assert(items.take(n) =~= items);
    }
}

/// The containers that a manifest asks for, with their names, in order.
pub fn extract_container_specs(
    namespace: &str,
    name: &str,
    pod: &Json,
    list: ContainerList,
    sources: &EnvSources,
) -> (r: Result<Vec<(String, ContainerSpec)>, KubeletError>)
    ensures
        specs_agree(
            r,
            pod_env::pod_label(namespace@, name@),
            extracted(namespace@, name@, pod@, list, sources@),
        ),
{
    let mut out: Vec<(String, ContainerSpec)> = Vec::new();
    assert(spec_views(out@) =~= Seq::<(Seq<char>, SpecView)>::empty());
    let items = match pod.arr_at2("spec", list.field()) {
        Some(v) => v,
        None => {
            return match list {
                ContainerList::Init => Ok(out),
                ContainerList::App => Err(
                    refuse(namespace, name, cat3("spec.", list.field(), " missing")),
                ),
            };
        },
    };
    proof {
        json::docs_index(items@);
    }
    if items.len() == 0 {
        return match list {
            ContainerList::Init => Ok(out),
            ContainerList::App => Err(
                refuse(namespace, name, cat3("spec.", list.field(), " is empty")),
            ),
        };
    }
    let ghost all = json::docs(items@);
    let mut i: usize = 0;
    assert(all.take(0) =~= Seq::<Doc>::empty());
    while i < items.len()
        invariant
            i <= items@.len(),
            items@.len() > 0,
            all == json::docs(items@),
            all.len() == items@.len(),
            pod@.arr_at2("spec"@, list_field(list)) == Some(all),
            container_specs(namespace@, name@, pod@, list, all.take(i as int), sources@)
                == Ok::<Seq<(Seq<char>, SpecView)>, Seq<char>>(spec_views(out@)),
        decreases items@.len() - i,
    {
        proof {
            json::docs_index(items@);
        }
        assert(all.take(i + 1).drop_last() =~= all.take(i as int));
        assert(all.take(i + 1).last() == items@[i as int]@);
        match read_container(namespace, name, pod, list, i, &items[i], sources) {
            Err(e) => {
                proof {
                    first_bad_container_stays(
                        namespace@,
                        name@,
                        pod@,
                        list,
                        all,
                        i + 1,
                        sources@,
                    );
                }
                return Err(e);
            },
            Ok(one) => {
                let ghost was = out@;
                out.push(one);
                assert(spec_views(out@) =~= spec_views(was).push((one.0@, one.1@)));
            },
        }
        i += 1;
    }
    assert(all.take(i as int) =~= all);
    Ok(out)
}

/// The containers that a pod is for, with their names, in order.
pub fn pod_to_container_specs(namespace: &str, name: &str, pod: &Json, sources: &EnvSources) -> (r:
    Result<Vec<(String, ContainerSpec)>, KubeletError>)
    ensures
        specs_agree(
            r,
            pod_env::pod_label(namespace@, name@),
            extracted(namespace@, name@, pod@, ContainerList::App, sources@),
        ),
{
    extract_container_specs(namespace, name, pod, ContainerList::App, sources)
}

/// The init containers of a pod, with their names, in order.
pub fn pod_to_init_container_specs(namespace: &str, name: &str, pod: &Json, sources: &EnvSources) -> (r:
    Result<Vec<(String, ContainerSpec)>, KubeletError>)
    ensures
        specs_agree(
            r,
            pod_env::pod_label(namespace@, name@),
            extracted(namespace@, name@, pod@, ContainerList::Init, sources@),
        ),
{
    extract_container_specs(namespace, name, pod, ContainerList::Init, sources)
}

/// The first container, from `i` on, that has this name.
pub open spec fn container_from(items: Seq<Doc>, i: int, cname: Seq<char>) -> Option<Doc>
    decreases items.len() - i,
{
    if i < 0 || i >= items.len() {
        None
    } else if container_name(items[i], i) == cname {
        Some(items[i])
    } else {
        container_from(items, i + 1, cname)
    }
}

/// What the manifest says of a container.
pub open spec fn container_doc(pod: Doc, list: ContainerList, cname: Seq<char>) -> Option<Doc> {
    match pod.arr_at2("spec"@, list_field(list)) {
        Some(items) => container_from(items, 0, cname),
        None => None,
    }
}

/// What the manifest says of a container.
pub fn container_json_in<'a>(pod: &'a Json, list: ContainerList, cname: &str) -> (r: Option<
    &'a Json,
>)
    ensures
        json::same_doc(r, container_doc(pod@, list, cname@)),
{
    let items = match pod.arr_at2("spec", list.field()) {
        Some(v) => v,
        None => {
            return None;
        },
    };
    let ghost all = json::docs(items@);
    let mut i: usize = 0;
    while i < items.len()
        invariant
            i <= items@.len(),
            all == json::docs(items@),
            pod@.arr_at2("spec"@, list_field(list)) == Some(all),
            container_from(all, 0, cname@) == container_from(all, i as int, cname@),
        decreases items@.len() - i,
    {
        proof {
            json::docs_index(items@);
        }
        assert(all[i as int] == items@[i as int]@);
        if same(name_of(&items[i], i).as_str(), cname) {
            return Some(&items[i]);
        }
        i += 1;
    }
    proof {
        json::docs_index(items@);
    }
    None
}

/// What the manifest says of one of the containers that the pod is for.
pub fn container_json<'a>(pod: &'a Json, cname: &str) -> (r: Option<&'a Json>)
    ensures
        json::same_doc(r, container_doc(pod@, ContainerList::App, cname@)),
{
    container_json_in(pod, ContainerList::App, cname)
}

/// How the containers of a pod are restarted.
pub fn pod_restart_policy(pod: &Json) -> (r: RestartPolicy)
    ensures
        r == lifecycle::policy_named(pod@.str_at2("spec"@, "restartPolicy"@)),
{
    RestartPolicy::from_spec_str(pod.str_at2("spec", "restartPolicy"))
}

/// Whether a pod succeeded or failed already.
pub open spec fn is_terminal(pod: Doc) -> bool {
    let phase = pod.str_at2("status"@, "phase"@);
    phase == Some("Succeeded"@) || phase == Some("Failed"@)
}

/// Whether a pod succeeded or failed already.
pub fn pod_already_terminal(pod: &Json) -> (r: bool)
    ensures
        r == is_terminal(pod@),
{
    match pod.str_at2("status", "phase") {
        Some(p) => same(p, "Succeeded") || same(p, "Failed"),
        None => false,
    }
}

/// Whether a pod is bound to this node.
pub open spec fn is_bound_to(pod: Doc, node: Seq<char>) -> bool {
    pod.str_at2("spec"@, "nodeName"@) == Some(node)
}

/// Whether a pod is bound to this node.
pub fn pod_is_bound_to(pod: &Json, node_name: &str) -> (r: bool)
    ensures
        r == is_bound_to(pod@, node_name@),
{
    match pod.str_at2("spec", "nodeName") {
        Some(n) => same(n, node_name),
        None => false,
    }
}

// ---- laws ----------------------------------------------------------------------------------

/// The containers of a pod are those of its manifest: as many, in order, each with its name and
/// the identity of its pod, which nothing has to be read out of the runtime's name for.
pub proof fn every_container_is_there(
    namespace: Seq<char>,
    pod_name: Seq<char>,
    pod: Doc,
    list: ContainerList,
    items: Seq<Doc>,
    sources: SourcesView,
)
    requires
        container_specs(namespace, pod_name, pod, list, items, sources) is Ok,
    ensures
        ({
            let specs = container_specs(namespace, pod_name, pod, list, items, sources)->Ok_0;
            &&& specs.len() == items.len()
            &&& forall|i: int|
                0 <= i < items.len() ==> {
                    &&& (#[trigger] specs[i]).0 == container_name(items[i], i)
                    &&& specs[i].1.pod.container_name == specs[i].0
                    &&& specs[i].1.pod.namespace == namespace
                    &&& specs[i].1.pod.name == pod_name
                    &&& specs[i].1.pod.init == (list is Init)
                }
        }),
    decreases items.len(),
{
    if items.len() > 0 {
        let rest = items.drop_last();
        every_container_is_there(namespace, pod_name, pod, list, rest, sources);
        let specs = container_specs(namespace, pod_name, pod, list, items, sources)->Ok_0;
        let before = container_specs(namespace, pod_name, pod, list, rest, sources)->Ok_0;
        assert forall|i: int| 0 <= i < items.len() implies {
            &&& (#[trigger] specs[i]).0 == container_name(items[i], i)
            &&& specs[i].1.pod.container_name == specs[i].0
            &&& specs[i].1.pod.namespace == namespace
            &&& specs[i].1.pod.name == pod_name
            &&& specs[i].1.pod.init == (list is Init)
        } by {
            if i < rest.len() {
                assert(specs[i] == before[i]);
                assert(rest[i] == items[i]);
            }
        }
    }
}

/// A pod without init containers has none, and is not refused for it.
pub proof fn no_init_containers_is_no_error(
    namespace: Seq<char>,
    pod_name: Seq<char>,
    pod: Doc,
    sources: SourcesView,
)
    requires
        match pod.arr_at2("spec"@, "initContainers"@) {
            Some(items) => items.len() == 0,
            None => true,
        },
    ensures
        extracted(namespace, pod_name, pod, ContainerList::Init, sources)
            == Ok::<Seq<(Seq<char>, SpecView)>, Seq<char>>(Seq::empty()),
{
}

/// An init container and an app container of one name are two for the runtime.
pub proof fn same_name_two_containers(namespace: Seq<char>, pod: Seq<char>, cname: Seq<char>)
    ensures
        runtime_name(namespace, pod, ContainerList::App, cname) != runtime_name(
            namespace,
            pod,
            ContainerList::Init,
            cname,
        ),
{
    reveal_strlit("_");
    reveal_strlit("_init-");
    assert(runtime_name(namespace, pod, ContainerList::App, cname).len() + 5 == runtime_name(
        namespace,
        pod,
        ContainerList::Init,
        cname,
    ).len());
}

/// A container that is there by its name in the list of specs is there in the manifest.
pub proof fn specs_are_in_the_manifest(items: Seq<Doc>, i: int, j: int)
    requires
        0 <= j <= i < items.len(),
    ensures
        container_from(items, j, container_name(items[i], i)) is Some,
    decreases i - j,
{
    if j < i && container_name(items[j], j) != container_name(items[i], i) {
        specs_are_in_the_manifest(items, i, j + 1);
    }
}

/// What is asked of the runtime is what the manifest says: the image, the words of the command and
/// then of the arguments, the policy by which the image is fetched, the resources and what it may do,
/// how long it is given to end, and who it is.
pub proof fn a_container_is_what_its_manifest_says(
    namespace: Seq<char>,
    pod_name: Seq<char>,
    pod: Doc,
    list: ContainerList,
    i: int,
    c: Doc,
    sources: SourcesView,
)
    requires
        container_spec(namespace, pod_name, pod, list, i, c, sources) is Ok,
    ensures
        ({
            let (cname, s) = container_spec(namespace, pod_name, pod, list, i, c, sources)->Ok_0;
            &&& c.str_at("image"@) == Some(s.image)
            &&& c.arr_at("command"@) is None && c.arr_at("args"@) is None ==> s.command.len() == 0
            &&& s.command == words_at(c, "command"@, s.env) + words_at(c, "args"@, s.env)
            &&& s.security_context == c.get("securityContext"@)
            &&& s.resources == quantity::resources_of(c)
            &&& c.str_at("imagePullPolicy"@) == Some("Always"@) ==> s.pull_policy == Some(
                PullPolicy::Always,
            )
            &&& c.str_at("imagePullPolicy"@) == Some("Never"@) ==> s.pull_policy == Some(
                PullPolicy::Never,
            )
            &&& c.str_at("imagePullPolicy"@) != Some("Always"@) && c.str_at("imagePullPolicy"@)
                != Some("Never"@) ==> s.pull_policy == Some(PullPolicy::IfNotPresent)
            &&& s.termination_grace == 1_000_000_000 * grace_secs(pod)
            &&& s.mounts.len() == 0
            &&& s.network_aliases.len() == 0
            &&& s.host_add.len() == 0
            &&& match c.str_at("name"@) {
                Some(n) => cname == n,
                None => i == 0 ==> cname == "main"@,
            }
            &&& s.pod.container_name == cname
            &&& s.pod.namespace == namespace
            &&& s.pod.name == pod_name
            &&& match pod.str_at2("metadata"@, "uid"@) {
                Some(u) => s.pod.uid == u,
                None => s.pod.uid.len() == 0,
            }
            &&& s.pod.init == (list is Init)
            &&& list is App ==> s.init_kind is Regular && s.name == namespace + "_"@ + pod_name
                + "_"@ + cname
            &&& list is Init ==> s.name == namespace + "_"@ + pod_name + "_init-"@ + cname && (
            s.init_kind is Sidecar <==> c.str_at("restartPolicy"@) == Some("Always"@))
            &&& c.arr_at("env"@) is None ==> s.env == Map::<Seq<char>, Seq<char>>::empty()
            &&& c.arr_at("env"@) matches Some(env) ==> container_env(
                namespace,
                pod_name,
                pod,
                cname,
                c,
                env,
                sources,
            ) == Ok::<Map<Seq<char>, Seq<char>>, Seq<char>>(s.env)
        }),
{
    reveal_strlit("Always");
    reveal_strlit("Never");
    reveal_strlit("");
    assert("Always"@.len() != "Never"@.len());
}

/// A container is refused exactly where it has no image, where a variable of it cannot be made, or
/// where it says how it is restarted and may not: an app container never, an init container only as
/// `Always`.
pub proof fn which_containers_are_refused(
    namespace: Seq<char>,
    pod_name: Seq<char>,
    pod: Doc,
    list: ContainerList,
    i: int,
    c: Doc,
    sources: SourcesView,
)
    ensures
        container_spec(namespace, pod_name, pod, list, i, c, sources) is Err <==> {
            ||| c.str_at("image"@) is None
            ||| c.arr_at("env"@) is Some && container_env(
                namespace,
                pod_name,
                pod,
                container_name(c, i),
                c,
                c.arr_at("env"@).unwrap(),
                sources,
            ) is Err
            ||| list is App && c.str_at("restartPolicy"@) is Some
            ||| list is Init && c.str_at("restartPolicy"@) is Some && c.str_at("restartPolicy"@)
                != Some("Always"@)
        },
{
}

/// A container without a name is called by its place.
pub proof fn names_of_the_unnamed(c: Doc, i: int)
    requires
        c.str_at("name"@) is None,
    ensures
        container_name(c, 0) == "main"@,
        i > 0 ==> container_name(c, i) == "container-"@ + number::decimal(i),
{
}

/// Containers are given to end what the pod says, and thirty seconds where it says nothing that can
/// be.
pub proof fn how_long_containers_are_given(pod: Doc)
    ensures
        match pod.get("spec"@) {
            Some(s) => match s.int_at("terminationGracePeriodSeconds"@) {
                Some(n) => n >= 0 ==> grace_secs(pod) == n,
                None => grace_secs(pod) == 30,
            },
            None => grace_secs(pod) == 30,
        },
        grace_secs(pod) == 30 || (pod.get("spec"@) is Some && pod.get("spec"@).unwrap().int_at(
            "terminationGracePeriodSeconds"@,
        ) == Some(grace_secs(pod) as int)),
{
}

/// Every text of a list is a word, in order, with its references replaced; what is no text is none.
pub proof fn every_text_is_a_word(list: Seq<Doc>, vars: Map<Seq<char>, Seq<char>>, last: Doc)
    ensures
        words(Seq::empty(), vars).len() == 0,
        last matches Doc::Str(s) ==> words(list.push(last), vars) == words(list, vars).push(
            env_ref::expanded(s, vars),
        ),
        !(last is Str) ==> words(list.push(last), vars) == words(list, vars),
{
    assert(list.push(last).drop_last() =~= list);
}

/// The variables of a container are made one by one. What is written out may refer to those before
/// it; what is taken from elsewhere is not looked into; a later one of the same name counts. One that
/// cannot be made is an error, whatever comes after it.
pub proof fn variables_are_made_in_order(
    namespace: Seq<char>,
    pod_name: Seq<char>,
    pod: Doc,
    cname: Seq<char>,
    own: Doc,
    env: Seq<Doc>,
    last: Doc,
    sources: SourcesView,
    name: Seq<char>,
)
    ensures
        ({
            let before = container_env(namespace, pod_name, pod, cname, own, env, sources);
            let after = container_env(
                namespace,
                pod_name,
                pod,
                cname,
                own,
                env.push(last),
                sources,
            );
            let one = pod_env::own_entry(
                namespace,
                pod_name,
                pod,
                cname,
                Some(own),
                last,
                sources,
            );
            &&& after is Err <==> before is Err || one is Err
            &&& after is Ok ==> {
                let k = one->Ok_0.0;
                let v = one->Ok_0.1;
                &&& after->Ok_0.dom().contains(k)
                &&& last.get("value"@) is Some ==> after->Ok_0[k] == env_ref::expanded(
                    v,
                    before->Ok_0,
                )
                &&& last.get("value"@) is None ==> after->Ok_0[k] == v
                &&& name != k ==> after->Ok_0.dom().contains(name)
                    == before->Ok_0.dom().contains(name)
                &&& name != k && before->Ok_0.dom().contains(name) ==> after->Ok_0[name]
                    == before->Ok_0[name]
            }
        }),
{
    assert(env.push(last).drop_last() =~= env);
}

/// A pod without app containers is refused.
pub proof fn a_pod_needs_a_container(
    namespace: Seq<char>,
    pod_name: Seq<char>,
    pod: Doc,
    sources: SourcesView,
)
    requires
        match pod.arr_at2("spec"@, "containers"@) {
            Some(items) => items.len() == 0,
            None => true,
        },
    ensures
        extracted(namespace, pod_name, pod, ContainerList::App, sources) is Err,
{
}

/// Every other pod has the containers that its field lists, and no other.
pub proof fn a_pod_has_the_containers_it_lists(
    namespace: Seq<char>,
    pod_name: Seq<char>,
    pod: Doc,
    sources: SourcesView,
)
    ensures
        pod.arr_at2("spec"@, "containers"@) matches Some(items) ==> items.len() > 0 ==> extracted(
            namespace,
            pod_name,
            pod,
            ContainerList::App,
            sources,
        ) == container_specs(namespace, pod_name, pod, ContainerList::App, items, sources),
        pod.arr_at2("spec"@, "initContainers"@) matches Some(items) ==> extracted(
            namespace,
            pod_name,
            pod,
            ContainerList::Init,
            sources,
        ) == container_specs(namespace, pod_name, pod, ContainerList::Init, items, sources),
{
}

/// Each container of a list that can be run stands in its place; a single one that cannot be run
/// refuses all of them.
pub proof fn each_container_stands_in_its_place(
    namespace: Seq<char>,
    pod_name: Seq<char>,
    pod: Doc,
    list: ContainerList,
    items: Seq<Doc>,
    sources: SourcesView,
    i: int,
)
    requires
        0 <= i < items.len(),
    ensures
        match container_specs(namespace, pod_name, pod, list, items, sources) {
            Ok(specs) => specs.len() == items.len() && container_spec(
                namespace,
                pod_name,
                pod,
                list,
                i,
                items[i],
                sources,
            ) == Ok::<(Seq<char>, SpecView), Seq<char>>(specs[i]),
            Err(_) => true,
        },
        container_spec(namespace, pod_name, pod, list, i, items[i], sources) is Err
            ==> container_specs(namespace, pod_name, pod, list, items, sources) is Err,
    decreases items.len(),
{
    let front = items.drop_last();
    if container_specs(namespace, pod_name, pod, list, items, sources) is Ok {
        every_container_is_there(namespace, pod_name, pod, list, items, sources);
        every_container_is_there(namespace, pod_name, pod, list, front, sources);
    }
    if i < front.len() {
        assert(front[i] == items[i]);
        each_container_stands_in_its_place(namespace, pod_name, pod, list, front, sources, i);
    }
}

/// Where containers are refused there is one that cannot be run.
pub proof fn one_is_to_blame(
    namespace: Seq<char>,
    pod_name: Seq<char>,
    pod: Doc,
    list: ContainerList,
    items: Seq<Doc>,
    sources: SourcesView,
) -> (i: int)
    requires
        container_specs(namespace, pod_name, pod, list, items, sources) is Err,
    ensures
        0 <= i < items.len(),
        container_spec(namespace, pod_name, pod, list, i, items[i], sources) is Err,
    decreases items.len(),
{
    let front = items.drop_last();
    if container_specs(namespace, pod_name, pod, list, front, sources) is Err {
        let i = one_is_to_blame(namespace, pod_name, pod, list, front, sources);
        assert(front[i] == items[i]);
        i
    } else {
        items.len() - 1
    }
}

/// A container is found in its manifest by its name: the first that has it.
pub proof fn the_first_of_a_name_is_found(items: Seq<Doc>, i: int, j: int)
    requires
        0 <= j <= i < items.len(),
        forall|k: int|
            j <= k < i ==> #[trigger] container_name(items[k], k) != container_name(items[i], i),
    ensures
        container_from(items, j, container_name(items[i], i)) == Some(items[i]),
    decreases i - j,
{
    if j < i {
        assert(container_name(items[j], j) != container_name(items[i], i));
        the_first_of_a_name_is_found(items, i, j + 1);
    }
}

/// A name that no container has is not found.
pub proof fn no_other_name_is_found(items: Seq<Doc>, j: int, name: Seq<char>)
    requires
        0 <= j,
        forall|k: int| j <= k < items.len() ==> #[trigger] container_name(items[k], k) != name,
    ensures
        container_from(items, j, name) is None,
    decreases items.len() - j,
{
    if j < items.len() {
        assert(container_name(items[j], j) != name);
        no_other_name_is_found(items, j + 1, name);
    }
}

/// The containers of a pod are read from the field that lists them.
pub proof fn where_containers_are_listed(pod: Doc, name: Seq<char>)
    ensures
        pod.arr_at2("spec"@, "containers"@) matches Some(items) ==> container_doc(
            pod,
            ContainerList::App,
            name,
        ) == container_from(items, 0, name),
        pod.arr_at2("spec"@, "initContainers"@) matches Some(items) ==> container_doc(
            pod,
            ContainerList::Init,
            name,
        ) == container_from(items, 0, name),
{
}

/// A pod has ended exactly where it is published to have succeeded or failed, and is bound to the
/// node that it names and to no other.
pub proof fn what_a_pod_says_of_itself(pod: Doc, node: Seq<char>, other: Seq<char>)
    ensures
        is_terminal(pod) <==> pod.str_at2("status"@, "phase"@) == Some("Succeeded"@)
            || pod.str_at2("status"@, "phase"@) == Some("Failed"@),
        is_bound_to(pod, node) <==> pod.str_at2("spec"@, "nodeName"@) == Some(node),
        is_bound_to(pod, node) && is_bound_to(pod, other) ==> node == other,
{
}

/// Containers with their names are told whole, in their order.
pub proof fn containers_are_told_whole(v: Seq<(String, ContainerSpec)>, i: int)
    requires
        0 <= i < v.len(),
    ensures
        spec_views(v).len() == v.len(),
        spec_views(v)[i].0 == v[i].0@,
        spec_views(v)[i].1 == v[i].1@,
{
}

/// The containers of a pod come out as they are, or the error names the pod and the reason.
pub proof fn how_containers_are_handed_on(
    r: Result<Vec<(String, ContainerSpec)>, KubeletError>,
    label: Seq<char>,
    d: Result<Seq<(Seq<char>, SpecView)>, Seq<char>>,
)
    requires
        specs_agree(r, label, d),
    ensures
        r is Ok <==> d is Ok,
        r matches Ok(v) ==> spec_views(v@) == d->Ok_0,
        r matches Err(e) ==> (e matches KubeletError::InvalidPod { pod, reason } && pod@ == label
            && reason@ == d->Err_0),
{
}

} // verus!
