//! Starting the containers of a pod.

use vstd::prelude::*;
use crate::backend::{
    clone_mounts,
    ContainerSpec,
    ContainerStatus,
    MountSource,
    ResolvedMount,
    SpecView,
};
use crate::error::{self, KubeletError};
use crate::json::{Doc, Json};
use crate::kubelet::{
    self,
    sa_request,
    ContainerRecord,
    Kubelet,
    KubeletView,
    PodView,
    RecordView,
    SaRequest,
};
use crate::lifecycle::{self, ContainerState, ContainerStatusOut, PodPhase, StateView, StatusView};
use crate::pod_env::{self, EnvSources, SourcesView};
use crate::pod_spec::{
    self,
    container_json,
    pod_to_container_specs,
    pod_to_init_container_specs,
    ContainerList,
};
use crate::pod_status::{self, build_pod_status};
use crate::probes::{self, parse_container_probes, ContainerProbeState, ProbeFaults};
use crate::report::{self, min_requeue, EventReason, Tally, TallyView};
use crate::resource::{self, KeyView, ResourceKey};
use crate::table::Table;
use crate::text::{self, cat2, cat4, clone_strings};
use crate::time::{self, Instant};

verus! {

// ---- which way a pod goes ------------------------------------------------------------------

/// Which way a pod goes in a pass.
#[derive(Debug)]
pub enum Route {
    /// It cannot be run, for this reason, and is passed over.
    Skip(KubeletError),
    /// Its init containers come first.
    Init { init_specs: Vec<(String, ContainerSpec)> },
    /// Its containers are next.
    App { specs: Vec<(String, ContainerSpec)>, init_specs: Vec<(String, ContainerSpec)> },
}

/// What a `Route` stands for. Of a pod that cannot be run, the reason is kept.
pub enum Way {
    Skip(Seq<char>),
    Init(Seq<(Seq<char>, SpecView)>),
    App { specs: Seq<(Seq<char>, SpecView)>, init_specs: Seq<(Seq<char>, SpecView)> },
}

/// The way that a pod goes: no container is started before the init containers are done, and none
/// of a pod whose manifest cannot be run.
pub open spec fn way_of(
    local: Map<KeyView, PodView>,
    k: KeyView,
    pod: Doc,
    sources: SourcesView,
) -> Way {
    let ns = resource::namespace_of(k);
    match pod_spec::extracted(ns, k.name, pod, ContainerList::Init, sources) {
        Err(reason) => Way::Skip(reason),
        Ok(init_specs) => if init_specs.len() > 0 && !kubelet::pod_or_empty(
            local,
            k,
        ).init_complete {
            Way::Init(init_specs)
        } else {
            match pod_spec::extracted(ns, k.name, pod, ContainerList::App, sources) {
                Err(reason) => Way::Skip(reason),
                Ok(specs) => Way::App { specs, init_specs },
            }
        },
    }
}

/// Whether this is the error of a pod that cannot be run, for this reason.
pub open spec fn skips_for(e: KubeletError, k: KeyView, reason: Seq<char>) -> bool {
    error::invalid_pod(e, pod_env::pod_label(resource::namespace_of(k), k.name), reason)
}

/// Which way a pod goes.
pub fn route(kubelet: &Kubelet, key: &ResourceKey, pod: &Json, sources: &EnvSources) -> (r: Route)
    ensures
        match way_of(kubelet@.local, key@, pod@, sources@) {
            Way::Skip(reason) => r matches Route::Skip(e) && skips_for(e, key@, reason),
            Way::Init(init) => r matches Route::Init { init_specs } && pod_spec::spec_views(
                init_specs@,
            ) == init,
            Way::App { specs: app, init_specs: init } => r matches Route::App {
                specs,
                init_specs,
            } && pod_spec::spec_views(specs@) == app && pod_spec::spec_views(init_specs@) == init,
        },
{
    let namespace = key.namespace_or_default();
    let init_specs = match pod_to_init_container_specs(
        namespace,
        key.name.as_str(),
        pod,
        sources,
    ) {
        Ok(s) => s,
        Err(e) => {
            return Route::Skip(e);
        },
    };
    assert(pod_spec::spec_views(init_specs@).len() == init_specs@.len());
    if init_specs.len() > 0 && !kubelet.init_complete(key) {
        return Route::Init { init_specs };
    }
    match pod_to_container_specs(namespace, key.name.as_str(), pod, sources) {
        Ok(specs) => Route::App { specs, init_specs },
        Err(e) => Route::Skip(e),
    }
}

// ---- the token of a pod --------------------------------------------------------------------

/// Where the files of a pod's service account are found.
pub const SA_MOUNT_PATH: &'static str = "/var/run/secrets/kubernetes.io/serviceaccount";

/// The volume that holds the files of a pod's service account.
pub const SA_VOLUME: &'static str = "kube-api-access";

/// Whether a pod gets a token: it does, unless it declines.
pub open spec fn automounts(pod: Doc) -> bool {
    match pod.get("spec"@) {
        Some(s) => s.bool_at("automountServiceAccountToken"@) != Some(false),
        None => true,
    }
}

/// The token that a pod gets, if it gets one.
pub fn service_account(namespace: &str, name: &str, pod: &Json) -> (r: Option<SaRequest>)
    ensures
        match r {
            Some(q) => automounts(pod@) && q@ == kubelet::sa_of(namespace@, name@, pod@),
            None => !automounts(pod@),
        },
{
    if let Some(v) = pod.get2("spec", "automountServiceAccountToken") {
        if let Some(b) = v.as_bool() {
            if !b {
                return None;
            }
        }
    }
    Some(sa_request(namespace, name, pod))
}

/// The mount of the files of a pod's service account, which no container can write.
pub fn service_account_mount(source: MountSource) -> (r: ResolvedMount)
    ensures
        r.source == source,
        r.mount_path@ == SA_MOUNT_PATH@,
        r.read_only,
        r.sub_path is None,
{
    ResolvedMount {
        source,
        mount_path: SA_MOUNT_PATH.to_owned(),
        read_only: true,
        sub_path: None,
    }
}

/// The words for files that could not be written.
pub fn projection_error(words: &str) -> (r: String)
    ensures
        r@ == "materialize ServiceAccount projection: "@ + words@,
{
    cat2("materialize ServiceAccount projection: ", words)
}

// ---- volumes that are not there ------------------------------------------------------------

/// What is published of containers none of which is started, for this reason.
pub open spec fn all_waiting(specs: Seq<(Seq<char>, SpecView)>, reason: Seq<char>) -> Seq<
    StatusView,
> {
    specs.map_values(
        |e: (Seq<char>, SpecView)|
            StatusView {
                name: e.0,
                ready: false,
                state: StateView::Waiting { reason },
                container_id: None,
                restart_count: 0,
            },
    )
}

/// What is published of a pod whose volumes are not there, for this reason: it is pending, and no
/// container of it is started. It is looked at again soon.
pub fn volumes_pending(
    live: &Json,
    specs: &[(String, ContainerSpec)],
    reason: &str,
    now: &str,
    tally: &mut Tally,
) -> (r: Json)
    ensures
        r@ == pod_status::pod_status(
            live@,
            PodPhase::Pending,
            Seq::empty(),
            all_waiting(pod_spec::spec_views(specs@), reason@),
            None,
            true,
            false,
            now@,
        ),
        final(tally)@ == old(tally)@.within(time::secs(1)).skipped(),
{
    let ghost want = all_waiting(pod_spec::spec_views(specs@), reason@);
    let mut statuses: Vec<ContainerStatusOut> = Vec::new();
    let mut i: usize = 0;
    assert(lifecycle::status_views(statuses@) =~= want.take(0));
    while i < specs.len()
        invariant
            i <= specs@.len(),
            want == all_waiting(pod_spec::spec_views(specs@), reason@),
            lifecycle::status_views(statuses@) =~= want.take(i as int),
        decreases specs@.len() - i,
    {
        let ghost was = statuses@;
        let s = ContainerStatusOut {
            name: specs[i].0.clone(),
            ready: false,
            state: ContainerState::Waiting { reason: reason.to_owned() },
            container_id: None,
            restart_count: 0,
        };
        statuses.push(s);
        assert(lifecycle::status_views(statuses@) =~= lifecycle::status_views(was).push(s@));
        assert(s@ == want[i as int]);
        i += 1;
    }
    assert(want.take(i as int) =~= want);
    tally.within(min_requeue());
    tally.skipped();
    build_pod_status(live, PodPhase::Pending, statuses.as_slice(), None, now)
}

/// Whether a volume lives as long as its pod.
pub open spec fn is_empty_dir(m: MountSource) -> bool {
    m is NamedVolume || m is EmptyDirHostDir
}

/// The volumes among these, in order, that live as long as the pod.
pub open spec fn empty_dirs(names: Seq<Seq<char>>, volumes: Map<Seq<char>, MountSource>) -> Seq<
    Seq<char>,
>
    decreases names.len(),
{
    if names.len() == 0 {
        Seq::empty()
    } else {
        let rest = empty_dirs(names.drop_last(), volumes);
        if is_empty_dir(volumes[names.last()]) {
            rest.push(names.last())
        } else {
            rest
        }
    }
}

/// The volumes of a pod, in order, that live as long as it.
pub fn empty_dir_names(volumes: &Table<MountSource>) -> (r: Vec<String>)
    ensures
        text::texts(r@) == empty_dirs(text::sorted(volumes@.dom()), volumes@),
{
    let names = volumes.keys();
    let ghost all = text::texts(names@);
    let mut out: Vec<String> = Vec::new();
    let mut i: usize = 0;
    assert(all.take(0) =~= Seq::<Seq<char>>::empty());
    assert(text::texts(out@) =~= Seq::<Seq<char>>::empty());
    while i < names.len()
        invariant
            i <= names@.len(),
            all == text::texts(names@),
            all.to_set() == volumes@.dom(),
            text::texts(out@) == empty_dirs(all.take(i as int), volumes@),
        decreases names@.len() - i,
    {
        assert(all[i as int] == names@[i as int]@);
        assert(all.to_set().contains(all[i as int]));
        assert(all.take(i + 1).drop_last() =~= all.take(i as int));
        assert(all.take(i + 1).last() == all[i as int]);
        if let Some(m) = volumes.get(names[i].as_str()) {
            let lives = match m {
                MountSource::NamedVolume(_) => true,
                MountSource::EmptyDirHostDir(_) => true,
                _ => false,
            };
            if lives {
                let ghost was = out@;
                out.push(names[i].clone());
                assert(text::texts(out@) =~= text::texts(was).push(all[i as int]));
            }
        }
        i += 1;
    }
    assert(all.take(i as int) =~= all);
    out
}

// ---- the probes of a pod -------------------------------------------------------------------

/// Whether a container has a probe that is at fault.
pub open spec fn faulty(c: Option<Doc>, f: ProbeFaults) -> bool {
    c matches Some(d) && (probes::at_fault(d.get("livenessProbe"@), f.liveness) || probes::at_fault(
        d.get("readinessProbe"@),
        f.readiness,
    ) || probes::at_fault(d.get("startupProbe"@), f.startup))
}

/// What is wrong with the probes of a container, in words.
pub open spec fn fault_text(d: Doc, f: ProbeFaults) -> Seq<char> {
    if probes::at_fault(d.get("livenessProbe"@), f.liveness) {
        "livenessProbe"@ + ": "@ + f.liveness.unwrap()@
    } else if probes::at_fault(d.get("readinessProbe"@), f.readiness) {
        "readinessProbe"@ + ": "@ + f.readiness.unwrap()@
    } else {
        "startupProbe"@ + ": "@ + f.startup.unwrap()@
    }
}

/// Whether this is the error of the first container with a probe that is at fault.
pub open spec fn fault_error(
    e: KubeletError,
    docs: Seq<Option<Doc>>,
    faults: Seq<ProbeFaults>,
    label: Seq<char>,
) -> bool {
    exists|i: int|
        {
            &&& 0 <= i < docs.len()
            &&& #[trigger] faulty(docs[i], faults[i])
            &&& forall|j: int| 0 <= j < i ==> !#[trigger] faulty(docs[j], faults[j])
            &&& error::invalid_pod(e, label, fault_text(docs[i].unwrap(), faults[i]))
        }
}

/// What the manifest says of each container.
pub open spec fn container_docs(pod: Doc, specs: Seq<(String, ContainerSpec)>) -> Seq<Option<Doc>> {
    specs.map_values(
        |e: (String, ContainerSpec)| pod_spec::container_doc(pod, ContainerList::App, e.0@),
    )
}

/// Whether these are the probes of a container, whose results count from now on.
pub open spec fn probes_are(p: ContainerProbeState, c: Doc, now: Instant) -> bool {
    &&& probes::slot_is(p.liveness, c.get("livenessProbe"@), now)
    &&& probes::slot_is(p.readiness, c.get("readinessProbe"@), now)
    &&& probes::slot_is(p.startup, c.get("startupProbe"@), now)
}

/// Whether some container has a probe that is at fault.
pub open spec fn some_faulty(docs: Seq<Option<Doc>>, faults: Seq<ProbeFaults>) -> bool {
    exists|i: int| 0 <= i < docs.len() && #[trigger] faulty(docs[i], faults[i])
}

/// Whether these are the probes of the containers of a pod, whose results count from now on.
pub open spec fn probe_table(
    t: Map<Seq<char>, ContainerProbeState>,
    pod: Doc,
    specs: Seq<(String, ContainerSpec)>,
    now: Instant,
) -> bool {
    &&& forall|i: int|
        #![trigger specs[i]]
        0 <= i < specs.len() ==> match pod_spec::container_doc(
            pod,
            ContainerList::App,
            specs[i].0@,
        ) {
            Some(c) => t.dom().contains(specs[i].0@) && probes_are(t[specs[i].0@], c, now),
            None => !t.dom().contains(specs[i].0@),
        }
    &&& forall|n: Seq<char>| #[trigger]
        t.dom().contains(n) ==> exists|i: int|
            0 <= i < specs.len() && (#[trigger] specs[i]).0@ == n
}

/// The probes of the containers of a pod, or the error of the first that is at fault. `faults` says
/// of each container what is wrong with its probes.
pub fn pod_probes(
    pod: &Json,
    specs: &[(String, ContainerSpec)],
    faults: Vec<ProbeFaults>,
    label: &str,
    now: Instant,
) -> (r: Result<Table<ContainerProbeState>, KubeletError>)
    requires
        faults@.len() == specs@.len(),
    ensures
        r is Err <==> some_faulty(container_docs(pod@, specs@), faults@),
        r matches Ok(t) ==> probe_table(t@, pod@, specs@, now),
        r matches Err(e) ==> fault_error(e, container_docs(pod@, specs@), faults@, label@),
{
    let mut out: Table<ContainerProbeState> = Table::new();
    let mut rest = faults;
    let ghost all = faults@;
    // The faults are taken out from the last to the first, so the order is turned round first.
    let mut turned: Vec<ProbeFaults> = Vec::new();
    while rest.len() > 0
        invariant
            turned@.len() + rest@.len() == all.len(),
            rest@ =~= all.take(rest@.len() as int),
            forall|k: int|
                0 <= k < turned@.len() ==> #[trigger] turned@[k] == all[all.len() - 1 - k],
        decreases rest@.len(),
    {
        if let Some(f) = rest.pop() {
            turned.push(f);
        }
    }
    let mut i: usize = 0;
    while i < specs.len()
        invariant
            i <= specs@.len(),
            all == faults@,
            all.len() == specs@.len(),
            turned@.len() == specs@.len() - i,
            forall|k: int|
                0 <= k < turned@.len() ==> #[trigger] turned@[k] == all[all.len() - 1 - k],
            forall|k: int|
                0 <= k < i ==> !#[trigger] faulty(container_docs(pod@, specs@)[k], all[k]),
            forall|k: int|
                #![trigger specs@[k]]
                0 <= k < i ==> match pod_spec::container_doc(
                    pod@,
                    ContainerList::App,
                    specs@[k].0@,
                ) {
                    Some(c) => out@.dom().contains(specs@[k].0@) && probes_are(
                        out@[specs@[k].0@],
                        c,
                        now,
                    ),
                    None => true,
                },
            forall|n: Seq<char>| #[trigger]
                out@.dom().contains(n) ==> (exists|k: int|
                    0 <= k < i && (#[trigger] specs@[k]).0@ == n) && pod_spec::container_doc(
                    pod@,
                    ContainerList::App,
                    n,
                ) is Some,
        decreases specs@.len() - i,
    {
        let name = specs[i].0.as_str();
        assert(specs@[i as int].0@ == name@);
        if let Some(f) = turned.pop() {
            assert(f == all[i as int]);
            if let Some(c) = container_json(pod, name) {
                match parse_container_probes(c, label, now, f) {
                    Ok(p) => {
                        out.insert(name, p);
                        assert(probes_are(p, c@, now));
                    },
                    Err(e) => {
                        assert(faulty(container_docs(pod@, specs@)[i as int], all[i as int]));
                        return Err(e);
                    },
                }
            }
        }
        i += 1;
    }
    Ok(out)
}

// ---- starting what is not started ----------------------------------------------------------

/// What a pass that starts containers waits for.
#[derive(Clone, Copy, Debug, PartialEq, Eq, Structural)]
pub enum StartStage {
    /// Whether the container was started.
    Starting,
    /// Nothing: a container asks for a volume that the pod does not have. None is started, and
    /// nothing is published.
    Refused,
    /// Nothing: every container was tried. The pod is looked after next.
    Over,
}

/// What all the containers of a pod are started with.
#[derive(Debug)]
pub struct Surroundings {
    /// The names under which others reach the pod.
    pub aliases: Vec<String>,
    /// The names it resolves without asking anyone, each with its address.
    pub hosts: Vec<String>,
    /// The mount of the files of its service account, where it has one.
    pub sa_mount: Option<ResolvedMount>,
    /// The volumes that live as long as the pod.
    pub empty_dirs: Vec<String>,
}

/// A pass that starts the containers of a pod that are not started yet.
#[derive(Debug)]
pub struct StartPass {
    pub key: ResourceKey,
    /// The containers of the manifest, in order.
    pub specs: Vec<(String, ContainerSpec)>,
    /// What each container mounts, where the pod has all of that.
    pub mounts: Vec<Option<Vec<ResolvedMount>>>,
    pub around: Surroundings,
    pub probes: Table<ContainerProbeState>,
    /// The place of the container that is started.
    pub at: usize,
    pub stage: StartStage,
    pub now: Instant,
    pub tally: Tally,
}

/// What a `StartPass` stands for.
#[verifier::ext_equal]
pub struct StartView {
    pub key: KeyView,
    pub specs: Seq<(Seq<char>, SpecView)>,
    pub mounts: Seq<Option<Seq<ResolvedMount>>>,
    pub aliases: Seq<Seq<char>>,
    pub hosts: Seq<Seq<char>>,
    pub sa_mount: Option<ResolvedMount>,
    pub empty_dirs: Seq<Seq<char>>,
    pub probes: Map<Seq<char>, ContainerProbeState>,
    pub at: int,
    pub stage: StartStage,
    pub now: Instant,
    pub tally: TallyView,
}

/// What a list of mounts of containers stands for.
pub open spec fn mount_views(v: Seq<Option<Vec<ResolvedMount>>>) -> Seq<
    Option<Seq<ResolvedMount>>,
> {
    v.map_values(
        |m: Option<Vec<ResolvedMount>>|
            match m {
                Some(x) => Some(x@),
                None => None,
            },
    )
}

impl View for StartPass {
    type V = StartView;

    open spec fn view(&self) -> StartView {
        StartView {
            key: self.key@,
            specs: pod_spec::spec_views(self.specs@),
            mounts: mount_views(self.mounts@),
            aliases: text::texts(self.around.aliases@),
            hosts: text::texts(self.around.hosts@),
            sa_mount: self.around.sa_mount,
            empty_dirs: text::texts(self.around.empty_dirs@),
            probes: self.probes@,
            at: self.at as int,
            stage: self.stage,
            now: self.now,
            tally: self.tally@,
        }
    }
}

impl StartView {
    /// The name of the container that is started.
    pub open spec fn name(self) -> Seq<char> {
        self.specs[self.at].0
    }

    /// A pass that can go on.
    pub open spec fn well_formed(self) -> bool {
        &&& self.mounts.len() == self.specs.len()
        &&& 0 <= self.at <= self.specs.len()
        &&& !(self.stage is Over) ==> self.at < self.specs.len()
        &&& self.stage is Starting ==> self.mounts[self.at] is Some
    }
}

/// The pass at the next container that is not started.
pub open spec fn to_missing(v: StartView, local: Map<KeyView, PodView>) -> StartView
    decreases v.specs.len() - v.at,
{
    if v.at < 0 || v.at >= v.specs.len() {
        StartView { stage: StartStage::Over, ..v }
    } else if kubelet::record_of(local, v.key, v.name()) is Some {
        to_missing(StartView { at: v.at + 1, ..v }, local)
    } else if v.mounts[v.at] is None {
        StartView { stage: StartStage::Refused, tally: v.tally.skipped(), ..v }
    } else {
        StartView { stage: StartStage::Starting, ..v }
    }
}

/// Whether a container that is not started asks for a volume that the pod does not have.
pub open spec fn lacks_volume(v: StartView, local: Map<KeyView, PodView>) -> bool {
    exists|i: int|
        0 <= i < v.specs.len() && kubelet::record_of(local, v.key, (#[trigger] v.specs[i]).0)
            is None && v.mounts[i] is None
}

/// How a pass begins: at the first container that is not started, or not at all where one of them
/// asks for a volume that the pod does not have.
pub open spec fn begun(v: StartView, local: Map<KeyView, PodView>) -> StartView {
    if lacks_volume(v, local) {
        StartView { stage: StartStage::Refused, tally: v.tally.skipped(), ..v }
    } else {
        to_missing(v, local)
    }
}

/// The mounts of a container: its own, then that of its service account.
pub open spec fn with_account(m: Seq<ResolvedMount>, sa: Option<ResolvedMount>) -> Seq<ResolvedMount> {
    match sa {
        Some(x) => m.push(x),
        None => m,
    }
}

/// The container that is started.
pub open spec fn to_start(v: StartView) -> SpecView {
    SpecView {
        network_aliases: v.aliases,
        host_add: v.hosts,
        mounts: with_account(v.mounts[v.at].unwrap(), v.sa_mount),
        ..v.specs[v.at].1
    }
}

/// What is remembered of a container that was started for the first time.
pub open spec fn fresh_record(v: StartView, id: Seq<char>) -> RecordView {
    RecordView {
        container_id: id,
        restart_count: 0,
        probes: if v.probes.dom().contains(v.name()) {
            v.probes[v.name()]
        } else {
            ContainerProbeState { liveness: None, readiness: None, startup: None }
        },
        started_at: Some(v.now),
        mounts: to_start(v).mounts,
        terminated_at: None,
    }
}

/// What is remembered once the container was started, or was not. A pod of which nothing was
/// started is not remembered.
pub open spec fn local_after_start(
    v: StartView,
    local: Map<KeyView, PodView>,
    r: Result<ContainerStatus, String>,
) -> Map<KeyView, PodView> {
    match r {
        Ok(s) => {
            let was = kubelet::pod_or_empty(local, v.key);
            local.insert(
                v.key,
                PodView {
                    containers: was.containers.insert(v.name(), fresh_record(v, s.container_id@)),
                    empty_dir_volumes: if was.empty_dir_volumes.len() == 0 {
                        v.empty_dirs
                    } else {
                        was.empty_dir_volumes
                    },
                    ..was
                },
            )
        },
        Err(_) => local,
    }
}

/// The pass once the container was started, or was not, in these words. Either is told.
pub open spec fn after_start(
    v: StartView,
    local: Map<KeyView, PodView>,
    r: Result<ContainerStatus, String>,
) -> StartView {
    to_missing(
        match r {
            Ok(_) => StartView {
                probes: v.probes.remove(v.name()),
                tally: v.tally.told(EventReason::Started, "Started container "@ + v.name()),
                at: v.at + 1,
                ..v
            },
            Err(words) => StartView {
                tally: v.tally.told(
                    EventReason::Failed,
                    "Failed to start container "@ + v.name() + ": "@ + words@,
                ).skipped(),
                at: v.at + 1,
                ..v
            },
        },
        local_after_start(v, local, r),
    )
}

proof fn to_missing_keeps_form(v: StartView, local: Map<KeyView, PodView>)
    requires
        v.mounts.len() == v.specs.len(),
        0 <= v.at <= v.specs.len(),
    ensures
        to_missing(v, local).well_formed(),
        to_missing(v, local).stage is Starting ==> kubelet::record_of(
            local,
            v.key,
            to_missing(v, local).name(),
        ) is None,
        to_missing(v, local).key == v.key,
        to_missing(v, local).specs == v.specs,
    decreases v.specs.len() - v.at,
{
    if v.at < v.specs.len() && kubelet::record_of(local, v.key, v.name()) is Some {
        to_missing_keeps_form(StartView { at: v.at + 1, ..v }, local);
    }
}

impl StartPass {
    /// A pass that starts the containers of a pod that are not started yet.
    pub fn begin(
        kubelet: &Kubelet,
        key: &ResourceKey,
        specs: Vec<(String, ContainerSpec)>,
        mounts: Vec<Option<Vec<ResolvedMount>>>,
        around: Surroundings,
        probes: Table<ContainerProbeState>,
        now: Instant,
        tally: Tally,
    ) -> (r: StartPass)
        requires
            mounts@.len() == specs@.len(),
        ensures
            r@.well_formed(),
            r@ == begun(
                StartView {
                    key: key@,
                    specs: pod_spec::spec_views(specs@),
                    mounts: mount_views(mounts@),
                    aliases: text::texts(around.aliases@),
                    hosts: text::texts(around.hosts@),
                    sa_mount: around.sa_mount,
                    empty_dirs: text::texts(around.empty_dirs@),
                    probes: probes@,
                    at: 0,
                    stage: StartStage::Starting,
                    now,
                    tally: tally@,
                },
                kubelet@.local,
            ),
    {
        let mut pass = StartPass {
            key: key.copy(),
            specs,
            mounts,
            around,
            probes,
            at: 0,
            stage: StartStage::Starting,
            now,
            tally,
        };
        let ghost v = pass@;
        if pass.lacks_some(kubelet) {
            pass.stage = StartStage::Refused;
            pass.tally.skipped();
            assert(pass@ =~= begun(v, kubelet@.local));
        } else {
            pass.advance(kubelet);
        }
        pass
    }

    fn lacks_some(&self, kubelet: &Kubelet) -> (r: bool)
        requires
            self@.mounts.len() == self@.specs.len(),
        ensures
            r == lacks_volume(self@, kubelet@.local),
    {
        let ghost v = self@;
        let mut i: usize = 0;
        while i < self.specs.len()
            invariant
                i <= self.specs@.len(),
                self@ == v,
                v.mounts.len() == v.specs.len(),
                forall|k: int|
                    0 <= k < i ==> !(kubelet::record_of(
                        kubelet@.local,
                        v.key,
                        (#[trigger] v.specs[k]).0,
                    ) is None && v.mounts[k] is None),
            decreases self.specs@.len() - i,
        {
            let recorded = match kubelet.local_pod(&self.key) {
                Some(p) => p.containers.contains_key(self.specs[i].0.as_str()),
                None => false,
            };
            assert(v.specs[i as int].0 == self.specs@[i as int].0@);
            assert(recorded == (kubelet::record_of(kubelet@.local, v.key, v.specs[i as int].0)
                is Some));
            if !recorded && self.mounts[i].is_none() {
                assert(v.mounts[i as int] is None);
                return true;
            }
            i += 1;
        }
        false
    }

    fn advance(&mut self, kubelet: &Kubelet)
        requires
            old(self)@.mounts.len() == old(self)@.specs.len(),
            old(self)@.at <= old(self)@.specs.len(),
        ensures
            final(self)@ == to_missing(old(self)@, kubelet@.local),
            final(self)@.well_formed(),
    {
        let ghost v = self@;
        proof {
            to_missing_keeps_form(v, kubelet@.local);
        }
        while self.at < self.specs.len()
            invariant
                self@.at <= self@.specs.len(),
                self@.mounts.len() == self@.specs.len(),
                to_missing(self@, kubelet@.local) == to_missing(v, kubelet@.local),
                to_missing(v, kubelet@.local).well_formed(),
                v == old(self)@,
            decreases self@.specs.len() - self@.at,
        {
            let ghost was = self@;
            let recorded = match kubelet.local_pod(&self.key) {
                Some(p) => p.containers.contains_key(self.specs[self.at].0.as_str()),
                None => false,
            };
            assert(recorded == (kubelet::record_of(kubelet@.local, was.key, was.name()) is Some));
            if !recorded {
                if self.mounts[self.at].is_none() {
                    self.stage = StartStage::Refused;
                    self.tally.skipped();
                } else {
                    self.stage = StartStage::Starting;
                }
                assert(self@ =~= to_missing(was, kubelet@.local));
                return ;
            }
            self.at = self.at + 1;
            assert(self@ =~= (StartView { at: was.at + 1, ..was }));
        }
        self.stage = StartStage::Over;
    }

    /// The container that is to be started, where there is one.
    pub fn call(&self) -> (r: Option<ContainerSpec>)
        requires
            self@.well_formed(),
        ensures
            match r {
                Some(spec) => self@.stage is Starting && spec@ == to_start(self@),
                None => !(self@.stage is Starting),
            },
    {
        match self.stage {
            StartStage::Starting => {
                let mut mounts: Vec<ResolvedMount> = match &self.mounts[self.at] {
                    Some(m) => clone_mounts(m.as_slice()),
                    None => Vec::new(),
                };
                assert(mounts@ == self@.mounts[self@.at].unwrap());
                if let Some(m) = &self.around.sa_mount {
                    mounts.push(m.copy());
                }
                assert(mounts@ =~= to_start(self@).mounts);
                Some(
                    self.specs[self.at].1.copy().with_names(
                        self.around.aliases.as_slice(),
                        self.around.hosts.as_slice(),
                    ).with_mounts(mounts),
                )
            },
            _ => None,
        }
    }

    /// Takes in what the runtime says of the container that was started, or why it was not.
    pub fn started(&mut self, kubelet: &mut Kubelet, r: Result<ContainerStatus, String>)
        requires
            old(self)@.well_formed(),
            old(self)@.stage is Starting,
        ensures
            final(self)@ == after_start(old(self)@, old(kubelet)@.local, r),
            final(self)@.well_formed(),
            final(kubelet)@ == (KubeletView {
                local: local_after_start(old(self)@, old(kubelet)@.local, r),
                ..old(kubelet)@
            }),
    {
        let ghost was = self@;
        let name = self.specs[self.at].0.clone();
        match r {
            Ok(s) => {
                let mounts: Vec<ResolvedMount> = match self.call() {
                    Some(spec) => spec.mounts,
                    None => Vec::new(),
                };
                assert(mounts@ == to_start(was).mounts);
                let probes = match self.probes.take(name.as_str()) {
                    Some(p) => p,
                    None => ContainerProbeState::default(),
                };
                let rec = ContainerRecord {
                    container_id: s.container_id,
                    restart_count: 0,
                    probes,
                    started_at: Some(self.now),
                    mounts,
                    terminated_at: None,
                };
                assert(rec@ == fresh_record(was, s.container_id@));
                kubelet.record_started(
                    &self.key,
                    name.as_str(),
                    rec,
                    clone_strings(self.around.empty_dirs.as_slice()),
                );
                let message = cat2("Started container ", name.as_str());
                self.tally.tell(EventReason::Started, message);
            },
            Err(words) => {
                let message = cat4(
                    "Failed to start container ",
                    name.as_str(),
                    ": ",
                    words.as_str(),
                );
                self.tally.tell(EventReason::Failed, message);
                self.tally.skipped();
            },
        }
        assert(was.at < self.specs.len());
        self.at = self.at + 1;
        self.advance(kubelet);
    }
}

// ---- laws ----------------------------------------------------------------------------------

/// No container of a pod is started or looked after before its init containers are done.
pub proof fn init_comes_first(
    local: Map<KeyView, PodView>,
    k: KeyView,
    pod: Doc,
    sources: SourcesView,
)
    ensures
        way_of(local, k, pod, sources) matches Way::App { init_specs, .. } ==> init_specs.len() == 0
            || kubelet::pod_or_empty(local, k).init_complete,
{
}

/// A container that was started is not started a second time by a pass, whatever came of the
/// others.
pub proof fn only_the_missing_are_started(v: StartView, local: Map<KeyView, PodView>)
    requires
        v.mounts.len() == v.specs.len(),
        0 <= v.at <= v.specs.len(),
    ensures
        to_missing(v, local).stage is Starting ==> kubelet::record_of(
            local,
            v.key,
            to_missing(v, local).name(),
        ) is None,
{
    to_missing_keeps_form(v, local);
}

/// A pod with a container that asks for a volume that the pod does not have is passed over as a
/// whole: none of its containers is started.
pub proof fn no_part_of_a_pod_without_its_volumes_is_started(
    v: StartView,
    local: Map<KeyView, PodView>,
    i: int,
)
    requires
        v.mounts.len() == v.specs.len(),
        0 <= i < v.specs.len(),
        kubelet::record_of(local, v.key, v.specs[i].0) is None,
        v.mounts[i] is None,
    ensures
        begun(v, local).stage is Refused,
        begun(v, local).tally == v.tally.skipped(),
{
    assert(lacks_volume(v, local));
}

/// A pod of which no container could be started is not remembered, so that the next pass tries it
/// again; and each failure is told.
pub proof fn a_failed_start_is_told_and_tried_again(
    v: StartView,
    local: Map<KeyView, PodView>,
    words: String,
)
    requires
        v.well_formed(),
        v.stage is Starting,
        !local.dom().contains(v.key),
    ensures
        !local_after_start(v, local, Err(words)).dom().contains(v.key),
        after_start(v, local, Err(words)).tally.events.contains(
            crate::report::EventView {
                reason: EventReason::Failed,
                message: "Failed to start container "@ + v.name() + ": "@ + words@,
            },
        ),
{
    let e = crate::report::EventView {
        reason: EventReason::Failed,
        message: "Failed to start container "@ + v.name() + ": "@ + words@,
    };
    let w = StartView {
        tally: v.tally.told(e.reason, e.message).skipped(),
        at: v.at + 1,
        ..v
    };
    assert(w.tally.events[v.tally.events.len() as int] == e);
    to_missing_keeps_events(w, local);
}

proof fn to_missing_keeps_events(v: StartView, local: Map<KeyView, PodView>)
    ensures
        to_missing(v, local).tally.events == v.tally.events,
    decreases v.specs.len() - v.at,
{
    if 0 <= v.at < v.specs.len() && kubelet::record_of(local, v.key, v.name()) is Some {
        to_missing_keeps_events(StartView { at: v.at + 1, ..v }, local);
    }
}

/// What a container is started with is what it is started again with: its mounts are remembered.
pub proof fn started_mounts_are_remembered(
    v: StartView,
    local: Map<KeyView, PodView>,
    s: ContainerStatus,
)
    requires
        v.well_formed(),
        v.stage is Starting,
    ensures
        crate::running::mounts_of(local_after_start(v, local, Ok(s)), v.key, v.name()) == to_start(
            v,
        ).mounts,
{
}

/// A pod that declines a token gets none.
pub proof fn a_declined_token_is_not_given(pod: Doc, spec: Doc)
    requires
        pod.get("spec"@) == Some(spec),
        spec.bool_at("automountServiceAccountToken"@) == Some(false),
    ensures
        !automounts(pod),
{
}

/// A pod goes by way of its init containers exactly where it has some and they are not done; where
/// its init containers cannot be run, or it is past them and its containers cannot, it goes nowhere.
pub proof fn which_way_a_pod_goes(
    local: Map<KeyView, PodView>,
    k: KeyView,
    pod: Doc,
    sources: SourcesView,
    ns: Seq<char>,
)
    requires
        k.namespace == Some(ns) || (k.namespace is None && ns == "default"@),
    ensures
        ({
            let init = pod_spec::extracted(ns, k.name, pod, ContainerList::Init, sources);
            let app = pod_spec::extracted(ns, k.name, pod, ContainerList::App, sources);
            let done = local.dom().contains(k) && local[k].init_complete;
            let way = way_of(local, k, pod, sources);
            &&& init is Err ==> way is Skip
            &&& init is Ok && init->Ok_0.len() > 0 && !done ==> way == Way::Init(init->Ok_0)
            &&& init is Ok && (init->Ok_0.len() == 0 || done) && app is Err ==> way is Skip
            &&& init is Ok && (init->Ok_0.len() == 0 || done) && app is Ok ==> way == (Way::App {
                specs: app->Ok_0,
                init_specs: init->Ok_0,
            })
        }),
{
}

/// A pod gets a token unless it says in so many words that it wants none.
pub proof fn who_gets_a_token(pod: Doc)
    ensures
        automounts(pod) <==> !(pod.get("spec"@) is Some && pod.get("spec"@).unwrap().get(
            "automountServiceAccountToken"@,
        ) == Some(Doc::Bool(false))),
{
}

/// Where nothing of a pod is started every container is told to wait for that reason.
pub proof fn all_are_told_to_wait(
    specs: Seq<(Seq<char>, SpecView)>,
    reason: Seq<char>,
    i: int,
)
    requires
        0 <= i < specs.len(),
    ensures
        all_waiting(specs, reason).len() == specs.len(),
        all_waiting(specs, reason)[i].name == specs[i].0,
        all_waiting(specs, reason)[i].state == (StateView::Waiting { reason }),
        !all_waiting(specs, reason)[i].ready,
        all_waiting(specs, reason)[i].container_id is None,
        all_waiting(specs, reason)[i].restart_count == 0,
{
}

/// The volumes that go with a pod are those that were made for it alone, in memory or on disk, and no
/// others.
pub proof fn which_volumes_go_with_the_pod(
    names: Seq<Seq<char>>,
    volumes: Map<Seq<char>, MountSource>,
    name: Seq<char>,
)
    ensures
        empty_dirs(names, volumes).contains(name) <==> names.contains(name) && (
        volumes[name] is NamedVolume || volumes[name] is EmptyDirHostDir),
    decreases names.len(),
{
    if names.len() > 0 {
        let front = names.drop_last();
        let last = names.last();
        which_volumes_go_with_the_pod(front, volumes, name);
        let rest = empty_dirs(front, volumes);
        let all = empty_dirs(names, volumes);
        if rest.contains(name) {
            let i = choose|i: int| 0 <= i < rest.len() && rest[i] == name;
            assert(all[i] == name);
            let j = choose|j: int| 0 <= j < front.len() && front[j] == name;
            assert(names[j] == name);
        }
        if all.contains(name) {
            let i = choose|i: int| 0 <= i < all.len() && all[i] == name;
            if i < rest.len() {
                assert(rest[i] == name);
            } else {
                assert(names[names.len() - 1] == name);
            }
        }
        if names.contains(name) && is_empty_dir(volumes[name]) {
            let j = choose|j: int| 0 <= j < names.len() && names[j] == name;
            if j < front.len() {
                assert(front[j] == name);
            } else {
                assert(all[rest.len() as int] == name);
            }
        }
    }
}

/// A container is at fault exactly where one of the probes that it has is.
pub proof fn which_containers_are_at_fault(d: Doc, f: ProbeFaults)
    ensures
        !faulty(None, f),
        faulty(Some(d), f) <==> {
            ||| d.get("livenessProbe"@) is Some && f.liveness is Some
            ||| d.get("readinessProbe"@) is Some && f.readiness is Some
            ||| d.get("startupProbe"@) is Some && f.startup is Some
        },
{
}

/// The probes of a container are those of its manifest, each as it is written there. None has passed
/// yet, and their results count from now.
pub proof fn probes_begin_unproved(p: ContainerProbeState, c: Doc, now: Instant)
    requires
        probes_are(p, c, now),
    ensures
        p.liveness is Some <==> c.get("livenessProbe"@) is Some,
        p.readiness is Some <==> c.get("readinessProbe"@) is Some,
        p.startup is Some <==> c.get("startupProbe"@) is Some,
        p.liveness matches Some(s) ==> Some(s.probe@) == c.get("livenessProbe"@)
            && !s.gate_satisfied && s.since == now,
        p.readiness matches Some(s) ==> Some(s.probe@) == c.get("readinessProbe"@)
            && !s.gate_satisfied && s.since == now,
        p.startup matches Some(s) ==> Some(s.probe@) == c.get("startupProbe"@)
            && !s.gate_satisfied && s.since == now,
{
}

/// The next container to start is the first that was not started yet, with none left out; the pass is
/// over exactly where all were.
pub proof fn the_next_to_start_is_the_first_missing(
    v: StartView,
    local: Map<KeyView, PodView>,
    i: int,
)
    requires
        v.mounts.len() == v.specs.len(),
        0 <= v.at <= v.specs.len(),
    ensures
        ({
            let w = to_missing(v, local);
            &&& v.at <= w.at <= v.specs.len()
            &&& v.at <= i < w.at ==> kubelet::record_of(local, v.key, v.specs[i].0) is Some
            &&& w.stage is Over <==> w.at == v.specs.len()
            &&& w.at < v.specs.len() ==> kubelet::record_of(local, v.key, v.specs[w.at].0) is None
                && (w.stage is Starting <==> v.mounts[w.at] is Some)
            &&& w.tally.events == v.tally.events
            &&& w.probes == v.probes
            &&& w.now == v.now
            &&& w.aliases == v.aliases
            &&& w.hosts == v.hosts
            &&& w.sa_mount == v.sa_mount
            &&& w.mounts == v.mounts
            &&& w.specs == v.specs
            &&& w.empty_dirs == v.empty_dirs
        }),
    decreases v.specs.len() - v.at,
{
    if v.at < v.specs.len() && kubelet::record_of(local, v.key, v.name()) is Some {
        the_next_to_start_is_the_first_missing(StartView { at: v.at + 1, ..v }, local, i);
    }
}

/// A pod that has all its volumes is begun with the first container that was not started yet.
pub proof fn a_pod_with_its_volumes_is_begun(v: StartView, local: Map<KeyView, PodView>)
    requires
        v.mounts.len() == v.specs.len(),
        v.at == 0,
        forall|i: int| 0 <= i < v.mounts.len() ==> (#[trigger] v.mounts[i]) is Some,
    ensures
        ({
            let w = begun(v, local);
            &&& w.stage is Over || w.stage is Starting
            &&& w.stage is Over ==> forall|i: int|
                0 <= i < v.specs.len() ==> kubelet::record_of(
                    local,
                    v.key,
                    (#[trigger] v.specs[i]).0,
                ) is Some
            &&& w.stage is Starting ==> kubelet::record_of(local, v.key, v.specs[w.at].0) is None
        }),
{
    let w = to_missing(v, local);
    the_next_to_start_is_the_first_missing(v, local, 0);
    assert forall|i: int| w.stage is Over && 0 <= i < v.specs.len() implies kubelet::record_of(
        local,
        v.key,
        (#[trigger] v.specs[i]).0,
    ) is Some by {
        the_next_to_start_is_the_first_missing(v, local, i);
    }
}

/// What is started is what the manifest says, under the names of the pod, with what it mounts and,
/// last, the files of its service account where it has one.
pub proof fn what_is_started_is_what_was_asked(v: StartView)
    requires
        v.well_formed(),
        v.stage is Starting,
    ensures
        ({
            let s = to_start(v);
            let first = v.specs[v.at].1;
            let own = v.mounts[v.at].unwrap();
            &&& s.name == first.name
            &&& s.image == first.image
            &&& s.env == first.env
            &&& s.command == first.command
            &&& s.pull_policy == first.pull_policy
            &&& s.security_context == first.security_context
            &&& s.resources == first.resources
            &&& s.init_kind == first.init_kind
            &&& s.pod == first.pod
            &&& s.termination_grace == first.termination_grace
            &&& s.network_aliases == v.aliases
            &&& s.host_add == v.hosts
            &&& s.mounts.take(own.len() as int) == own
            &&& match v.sa_mount {
                Some(m) => s.mounts.len() == own.len() + 1 && s.mounts.last() == m,
                None => s.mounts.len() == own.len(),
            }
        }),
{
    assert(to_start(v).mounts.take(v.mounts[v.at].unwrap().len() as int)
        =~= v.mounts[v.at].unwrap());
}

/// A container that was started is remembered under its id, from now, never restarted and not ended,
/// with its probes and its mounts. Nothing that is remembered of another changes, and the volumes that
/// go with the pod are remembered with its first container.
pub proof fn a_start_is_remembered(
    v: StartView,
    local: Map<KeyView, PodView>,
    s: ContainerStatus,
    k: KeyView,
    name: Seq<char>,
)
    requires
        v.well_formed(),
        v.stage is Starting,
    ensures
        ({
            let after = local_after_start(v, local, Ok(s));
            let rec = kubelet::record_of(after, v.key, v.specs[v.at].0);
            &&& rec matches Some(r)
            &&& r.container_id == s.container_id@
            &&& r.restart_count == 0
            &&& r.started_at == Some(v.now)
            &&& r.terminated_at is None
            &&& r.mounts == to_start(v).mounts
            &&& if v.probes.dom().contains(v.specs[v.at].0) {
                r.probes == v.probes[v.specs[v.at].0]
            } else {
                r.probes.liveness is None && r.probes.readiness is None
                    && r.probes.startup is None
            }
            &&& k != v.key || name != v.specs[v.at].0 ==> kubelet::record_of(after, k, name)
                == kubelet::record_of(local, k, name)
            &&& kubelet::init_record_of(after, k, name) == kubelet::init_record_of(local, k, name)
            &&& after[v.key].init_complete == (local.dom().contains(v.key)
                && local[v.key].init_complete)
            &&& after[v.key].empty_dir_volumes == if local.dom().contains(v.key)
                && local[v.key].empty_dir_volumes.len() > 0 {
                local[v.key].empty_dir_volumes
            } else {
                v.empty_dirs
            }
        }),
        forall|words: String| #[trigger] local_after_start(v, local, Err(words)) == local,
{
}

/// A start is told as what it was: one that was made as such, and one that failed with its words, and
/// that one is passed over. Either way the pass goes on behind it.
pub proof fn every_start_is_told(
    v: StartView,
    local: Map<KeyView, PodView>,
    s: ContainerStatus,
    words: String,
)
    requires
        v.well_formed(),
        v.stage is Starting,
    ensures
        ({
            let done = after_start(v, local, Ok(s));
            let failed = after_start(v, local, Err(words));
            &&& done.at > v.at
            &&& failed.at > v.at
            &&& done.tally.events.len() == v.tally.events.len() + 1
            &&& done.tally.events.last().reason is Started
            &&& done.tally.events.last().message == "Started container "@ + v.specs[v.at].0
            &&& failed.tally.events.len() == v.tally.events.len() + 1
            &&& failed.tally.events.last().reason is Failed
            &&& failed.tally.events.last().message == "Failed to start container "@
                + v.specs[v.at].0 + ": "@ + words@
        }),
{
    let a = StartView {
        probes: v.probes.remove(v.name()),
        tally: v.tally.told(EventReason::Started, "Started container "@ + v.name()),
        at: v.at + 1,
        ..v
    };
    let b = StartView {
        tally: v.tally.told(
            EventReason::Failed,
            "Failed to start container "@ + v.name() + ": "@ + words@,
        ).skipped(),
        at: v.at + 1,
        ..v
    };
    the_next_to_start_is_the_first_missing(a, local_after_start(v, local, Ok(s)), 0);
    the_next_to_start_is_the_first_missing(b, local_after_start(v, local, Err(words)), 0);
}

proof fn skips_at_most_once(v: StartView, local: Map<KeyView, PodView>)
    requires
        v.mounts.len() == v.specs.len(),
        0 <= v.at <= v.specs.len(),
        forall|i: int| 0 <= i < v.mounts.len() ==> (#[trigger] v.mounts[i]) is Some,
    ensures
        to_missing(v, local).tally == v.tally,
    decreases v.specs.len() - v.at,
{
    if v.at < v.specs.len() && kubelet::record_of(local, v.key, v.name()) is Some {
        skips_at_most_once(StartView { at: v.at + 1, ..v }, local);
    }
}

/// Of a pod that has all its volumes, exactly the containers that could not be started are passed
/// over.
pub proof fn only_failed_starts_are_passed_over(
    v: StartView,
    local: Map<KeyView, PodView>,
    s: ContainerStatus,
    words: String,
)
    requires
        v.well_formed(),
        v.stage is Starting,
        forall|i: int| 0 <= i < v.mounts.len() ==> (#[trigger] v.mounts[i]) is Some,
        v.tally.report.objects_skipped < usize::MAX,
    ensures
        after_start(v, local, Ok(s)).tally.report == v.tally.report,
        after_start(v, local, Ok(s)).tally.soonest == v.tally.soonest,
        after_start(v, local, Err(words)).tally.report.objects_skipped
            == v.tally.report.objects_skipped + 1,
        after_start(v, local, Err(words)).tally.report.objects_changed
            == v.tally.report.objects_changed,
{
    let a = StartView {
        probes: v.probes.remove(v.name()),
        tally: v.tally.told(EventReason::Started, "Started container "@ + v.name()),
        at: v.at + 1,
        ..v
    };
    let b = StartView {
        tally: v.tally.told(
            EventReason::Failed,
            "Failed to start container "@ + v.name() + ": "@ + words@,
        ).skipped(),
        at: v.at + 1,
        ..v
    };
    skips_at_most_once(a, local_after_start(v, local, Ok(s)));
    skips_at_most_once(b, local_after_start(v, local, Err(words)));
}

/// A pass is told whole, each part from its own place.
pub proof fn a_pass_is_told_whole(p: StartPass, i: int)
    ensures
        p@.key == p.key@,
        p@.specs == pod_spec::spec_views(p.specs@),
        p@.mounts.len() == p.mounts@.len(),
        0 <= i < p.mounts@.len() ==> match p.mounts@[i] {
            Some(m) => p@.mounts[i] == Some(m@),
            None => p@.mounts[i] is None,
        },
        p@.aliases == text::texts(p.around.aliases@),
        p@.hosts == text::texts(p.around.hosts@),
        p@.sa_mount == p.around.sa_mount,
        p@.empty_dirs == text::texts(p.around.empty_dirs@),
        p@.probes == p.probes@,
        p@.at == p.at,
        p@.stage == p.stage,
        p@.now == p.now,
        p@.tally == p.tally@,
{
}

/// What is wrong with a container's probes is told by the name of the probe and its words: of the
/// liveness probe first, then of the readiness probe, then of the startup probe.
pub proof fn which_fault_is_told(d: Doc, f: ProbeFaults)
    requires
        faulty(Some(d), f),
    ensures
        ({
            let alive = d.get("livenessProbe"@) is Some && f.liveness is Some;
            let ready = d.get("readinessProbe"@) is Some && f.readiness is Some;
            &&& alive ==> fault_text(d, f) == "livenessProbe"@ + ": "@ + f.liveness.unwrap()@
            &&& !alive && ready ==> fault_text(d, f) == "readinessProbe"@ + ": "@
                + f.readiness.unwrap()@
            &&& !alive && !ready ==> fault_text(d, f) == "startupProbe"@ + ": "@
                + f.startup.unwrap()@ && d.get("startupProbe"@) is Some && f.startup is Some
        }),
{
}

/// The error is that of the first container at fault, and names the pod.
pub proof fn the_first_fault_is_told(
    e: KubeletError,
    docs: Seq<Option<Doc>>,
    faults: Seq<ProbeFaults>,
    label: Seq<char>,
) -> (i: int)
    requires
        fault_error(e, docs, faults, label),
    ensures
        0 <= i < docs.len(),
        faulty(docs[i], faults[i]),
        forall|j: int| 0 <= j < i ==> !#[trigger] faulty(docs[j], faults[j]),
        e matches KubeletError::InvalidPod { pod, reason } && pod@ == label && reason@
            == fault_text(docs[i].unwrap(), faults[i]),
{
    choose|i: int|
        {
            &&& 0 <= i < docs.len()
            &&& #[trigger] faulty(docs[i], faults[i])
            &&& forall|j: int| 0 <= j < i ==> !#[trigger] faulty(docs[j], faults[j])
            &&& error::invalid_pod(e, label, fault_text(docs[i].unwrap(), faults[i]))
        }
}

/// A pod is at fault where one of its containers is.
pub proof fn one_fault_is_enough(docs: Seq<Option<Doc>>, faults: Seq<ProbeFaults>, i: int)
    ensures
        0 <= i < docs.len() && faulty(docs[i], faults[i]) ==> some_faulty(docs, faults),
        (forall|k: int| 0 <= k < docs.len() ==> !#[trigger] faulty(docs[k], faults[k]))
            ==> !some_faulty(docs, faults),
{
}

/// Each container of the manifest has its probes, under its name, and no other name has any.
pub proof fn whose_probes_are_kept(
    t: Map<Seq<char>, ContainerProbeState>,
    pod: Doc,
    specs: Seq<(String, ContainerSpec)>,
    now: Instant,
    i: int,
    c: Doc,
    name: Seq<char>,
)
    requires
        probe_table(t, pod, specs, now),
        0 <= i < specs.len(),
        pod_spec::container_doc(pod, ContainerList::App, specs[i].0@) == Some(c),
        forall|k: int| 0 <= k < specs.len() ==> (#[trigger] specs[k]).0@ != name,
    ensures
        t.dom().contains(specs[i].0@),
        probes_are(t[specs[i].0@], c, now),
        !t.dom().contains(name),
{
    assert(specs[i].0@ == specs[i].0@);
}

/// What the manifest says of each container is found by its name among the app containers, in order.
pub proof fn what_the_manifest_says_of_each(
    pod: Doc,
    specs: Seq<(String, ContainerSpec)>,
    i: int,
)
    requires
        0 <= i < specs.len(),
    ensures
        container_docs(pod, specs).len() == specs.len(),
        container_docs(pod, specs)[i] == pod_spec::container_doc(
            pod,
            ContainerList::App,
            specs[i].0@,
        ),
{
}

} // verus!
