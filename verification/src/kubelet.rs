//! What a node knows of the pods it runs, and what it does with that in each pass.

use vstd::prelude::*;
use crate::backend::ResolvedMount;
use crate::error::{self, KubeletError};
use crate::json::{self, Doc, Json};
use crate::keyed::{self, KeyTable};
use crate::lifecycle;
use crate::node_lease::{self, renew_due};
use crate::pod_spec::{self, name_of, pod_already_terminal, pod_is_bound_to};
use crate::probes::{self, with_gates, ContainerProbeState, ProbeReadings};
use crate::report::{self, next_pass, ReconcileReport, ReconcileResult, Tally, TallyView};
use crate::resource::{self, KeyView, ResourceKey};
use crate::table::Table;
use crate::text::{self, cat3, cat4, debug_of};
use crate::time::{self, Duration, Instant};

verus! {

/// What is remembered of a container that was started.
#[derive(Debug)]
pub struct ContainerRecord {
    /// What the runtime calls it.
    pub container_id: String,
    /// How often it was started again.
    pub restart_count: u32,
    pub probes: ContainerProbeState,
    /// When it was last started.
    pub started_at: Option<Instant>,
    /// What it was started with, for when it is started again.
    pub mounts: Vec<ResolvedMount>,
    /// When it was first seen to have ended, where it has.
    pub terminated_at: Option<Instant>,
}

/// What a `ContainerRecord` stands for.
#[verifier::ext_equal]
pub struct RecordView {
    pub container_id: Seq<char>,
    pub restart_count: u32,
    pub probes: ContainerProbeState,
    pub started_at: Option<Instant>,
    pub mounts: Seq<ResolvedMount>,
    pub terminated_at: Option<Instant>,
}

impl View for ContainerRecord {
    type V = RecordView;

    open spec fn view(&self) -> RecordView {
        RecordView {
            container_id: self.container_id@,
            restart_count: self.restart_count,
            probes: self.probes,
            started_at: self.started_at,
            mounts: self.mounts@,
            terminated_at: self.terminated_at,
        }
    }
}

/// What records stand for.
pub open spec fn record_views(m: Map<Seq<char>, ContainerRecord>) -> Map<Seq<char>, RecordView> {
    m.map_values(|r: ContainerRecord| r@)
}

/// What is remembered of a pod of which a container was started.
#[derive(Debug)]
pub struct LocalPod {
    pub containers: Table<ContainerRecord>,
    pub init_containers: Table<ContainerRecord>,
    /// Whether nothing has to be waited for before the containers are started.
    pub init_complete: bool,
    /// The volumes that live as long as the pod.
    pub empty_dir_volumes: Vec<String>,
}

/// What a `LocalPod` stands for.
#[verifier::ext_equal]
pub struct PodView {
    pub containers: Map<Seq<char>, RecordView>,
    pub init_containers: Map<Seq<char>, RecordView>,
    pub init_complete: bool,
    pub empty_dir_volumes: Seq<Seq<char>>,
}

impl View for LocalPod {
    type V = PodView;

    open spec fn view(&self) -> PodView {
        PodView {
            containers: record_views(self.containers@),
            init_containers: record_views(self.init_containers@),
            init_complete: self.init_complete,
            empty_dir_volumes: text::texts(self.empty_dir_volumes@),
        }
    }
}

/// A pod of which nothing was started.
pub open spec fn empty_pod() -> PodView {
    PodView {
        containers: Map::empty(),
        init_containers: Map::empty(),
        init_complete: false,
        empty_dir_volumes: Seq::empty(),
    }
}

impl Default for LocalPod {
    fn default() -> (r: LocalPod)
        ensures
            r@ == empty_pod(),
    {
        let r = LocalPod {
            containers: Table::new(),
            init_containers: Table::new(),
            init_complete: false,
            empty_dir_volumes: Vec::new(),
        };
        assert(r@ =~= empty_pod());
        r
    }
}

/// A node that runs pods.
#[derive(Debug)]
pub struct Kubelet {
    node_name: String,
    local: KeyTable<LocalPod>,
    last_lease_renewal: Option<Instant>,
    last_sa_refresh: Option<Instant>,
}

/// What is known of a `Kubelet`.
#[verifier::ext_equal]
pub struct KubeletView {
    pub node: Seq<char>,
    /// The pods of which a container was started.
    pub local: Map<KeyView, PodView>,
    pub last_lease_renewal: Option<Instant>,
    pub last_sa_refresh: Option<Instant>,
}

impl View for Kubelet {
    type V = KubeletView;

    closed spec fn view(&self) -> KubeletView {
        KubeletView {
            node: self.node_name@,
            local: self.local@.map_values(|p: LocalPod| p@),
            last_lease_renewal: self.last_lease_renewal,
            last_sa_refresh: self.last_sa_refresh,
        }
    }
}

/// What is remembered of a pod: nothing, where nothing was started.
pub open spec fn pod_or_empty(local: Map<KeyView, PodView>, k: KeyView) -> PodView {
    if local.dom().contains(k) {
        local[k]
    } else {
        empty_pod()
    }
}

/// What is remembered of a container.
pub open spec fn record_of(local: Map<KeyView, PodView>, k: KeyView, cname: Seq<char>) -> Option<
    RecordView,
> {
    let p = pod_or_empty(local, k);
    if p.containers.dom().contains(cname) {
        Some(p.containers[cname])
    } else {
        None
    }
}

/// What is remembered of an init container.
pub open spec fn init_record_of(local: Map<KeyView, PodView>, k: KeyView, cname: Seq<char>) -> Option<
    RecordView,
> {
    let p = pod_or_empty(local, k);
    if p.init_containers.dom().contains(cname) {
        Some(p.init_containers[cname])
    } else {
        None
    }
}

/// The pods, where this is remembered of a container.
pub open spec fn with_record(
    local: Map<KeyView, PodView>,
    k: KeyView,
    cname: Seq<char>,
    rec: RecordView,
) -> Map<KeyView, PodView> {
    let p = pod_or_empty(local, k);
    local.insert(k, PodView { containers: p.containers.insert(cname, rec), ..p })
}

/// The pods, where this is remembered of an init container.
pub open spec fn with_init_record(
    local: Map<KeyView, PodView>,
    k: KeyView,
    cname: Seq<char>,
    rec: RecordView,
) -> Map<KeyView, PodView> {
    let p = pod_or_empty(local, k);
    local.insert(k, PodView { init_containers: p.init_containers.insert(cname, rec), ..p })
}

/// What is remembered of a container that was first seen to have ended by now.
pub open spec fn stamped(rec: RecordView, now: Instant) -> RecordView {
    RecordView {
        terminated_at: match rec.terminated_at {
            Some(t) => Some(t),
            None => Some(now),
        },
        ..rec
    }
}

/// How long ago a container ended.
pub open spec fn since_exit(rec: Option<RecordView>, now: Instant) -> nat {
    match rec {
        Some(r) => match r.terminated_at {
            Some(t) => time::elapsed(t@, now@),
            None => 0,
        },
        None => 0,
    }
}

/// How long a container had been up before it ended.
pub open spec fn uptime(rec: Option<RecordView>, now: Instant) -> nat {
    match rec {
        Some(r) => match r.started_at {
            Some(st) => time::elapsed(
                st@,
                match r.terminated_at {
                    Some(t) => t@,
                    None => now@,
                },
            ),
            None => 0,
        },
        None => 0,
    }
}

/// What is remembered of a container that was started again, under this id.
pub open spec fn restarted_as(was: RecordView, id: Seq<char>, count: u32, now: Instant) -> RecordView {
    RecordView {
        container_id: id,
        restart_count: count,
        started_at: Some(now),
        terminated_at: None,
        probes: probes::reset_at(was.probes, now),
        mounts: was.mounts,
    }
}

impl Kubelet {
    /// A node that runs nothing yet.
    pub fn new(node_name: &str) -> (r: Kubelet)
        ensures
            r@ == (KubeletView {
                node: node_name@,
                local: Map::empty(),
                last_lease_renewal: None,
                last_sa_refresh: None,
            }),
    {
        let r = Kubelet {
            node_name: node_name.to_owned(),
            local: KeyTable::new(),
            last_lease_renewal: None,
            last_sa_refresh: None,
        };
        assert(r@.local =~= Map::<KeyView, PodView>::empty());
        r
    }

    /// The name of the node.
    pub fn node_name(&self) -> (r: &str)
        ensures
            r@ == self@.node,
    {
        self.node_name.as_str()
    }

    /// Whether a container of this pod was started.
    pub fn is_started(&self, key: &ResourceKey) -> (r: bool)
        ensures
            r == self@.local.dom().contains(key@),
    {
        self.local.contains_key(key)
    }

    /// What is remembered of a pod.
    pub fn local_pod(&self, key: &ResourceKey) -> (r: Option<&LocalPod>)
        ensures
            match r {
                Some(p) => self@.local.dom().contains(key@) && self@.local[key@] == p@,
                None => !self@.local.dom().contains(key@),
            },
    {
        self.local.get(key)
    }

    /// Whether nothing has to be waited for before the containers of a pod are started.
    pub fn init_complete(&self, key: &ResourceKey) -> (r: bool)
        ensures
            r == pod_or_empty(self@.local, key@).init_complete,
    {
        match self.local.get(key) {
            Some(p) => p.init_complete,
            None => false,
        }
    }

    fn take_pod(&mut self, key: &ResourceKey) -> (r: LocalPod)
        ensures
            r@ == pod_or_empty(old(self)@.local, key@),
            final(self)@ == (KubeletView {
                local: old(self)@.local.remove(key@),
                ..old(self)@
            }),
    {
        let r = match self.local.take(key) {
            Some(p) => p,
            None => LocalPod::default(),
        };
        assert(self@.local =~= old(self)@.local.remove(key@));
        r
    }

    fn put_pod(&mut self, key: &ResourceKey, p: LocalPod)
        ensures
            final(self)@ == (KubeletView {
                local: old(self)@.local.insert(key@, p@),
                ..old(self)@
            }),
    {
        self.local.insert(key, p);
        assert(self@.local =~= old(self)@.local.insert(key@, p@));
    }

    /// Forgets a pod.
    pub fn forget(&mut self, key: &ResourceKey)
        ensures
            final(self)@ == (KubeletView {
                local: old(self)@.local.remove(key@),
                ..old(self)@
            }),
    {
        self.local.remove(key);
        assert(self@.local =~= old(self)@.local.remove(key@));
    }

    /// Remembers a container that was started, and the volumes that live as long as its pod, where
    /// none were remembered yet.
    pub fn record_started(
        &mut self,
        key: &ResourceKey,
        cname: &str,
        rec: ContainerRecord,
        empty_dirs: Vec<String>,
    )
        ensures
            ({
                let was = pod_or_empty(old(self)@.local, key@);
                final(self)@ == (KubeletView {
                    local: old(self)@.local.insert(
                        key@,
                        PodView {
                            containers: was.containers.insert(cname@, rec@),
                            empty_dir_volumes: if was.empty_dir_volumes.len() == 0 {
                                text::texts(empty_dirs@)
                            } else {
                                was.empty_dir_volumes
                            },
                            ..was
                        },
                    ),
                    ..old(self)@
                })
            }),
    {
        let mut p = self.take_pod(key);
        if p.empty_dir_volumes.len() == 0 {
            p.empty_dir_volumes = empty_dirs;
        }
        let ghost was = p@;
        p.containers.insert(cname, rec);
        assert(p@.containers =~= was.containers.insert(cname@, rec@));
        let ghost v = p@;
        self.put_pod(key, p);
        assert(self@.local =~= old(self)@.local.insert(key@, v));
    }

    /// Remembers an init container that was started.
    pub fn record_init_started(&mut self, key: &ResourceKey, cname: &str, rec: ContainerRecord)
        ensures
            final(self)@ == (KubeletView {
                local: with_init_record(old(self)@.local, key@, cname@, rec@),
                ..old(self)@
            }),
    {
        let mut p = self.take_pod(key);
        let ghost was = p@;
        p.init_containers.insert(cname, rec);
        assert(p@.init_containers =~= was.init_containers.insert(cname@, rec@));
        let ghost v = p@;
        self.put_pod(key, p);
        assert(self@.local =~= old(self)@.local.insert(key@, v));
    }

    /// Remembers that nothing has to be waited for before the containers of a pod are started.
    pub fn mark_init_complete(&mut self, key: &ResourceKey)
        ensures
            final(self)@ == (KubeletView {
                local: old(self)@.local.insert(
                    key@,
                    PodView { init_complete: true, ..pod_or_empty(old(self)@.local, key@) },
                ),
                ..old(self)@
            }),
    {
        let mut p = self.take_pod(key);
        p.init_complete = true;
        let ghost v = p@;
        self.put_pod(key, p);
        assert(self@.local =~= old(self)@.local.insert(key@, v));
    }

    /// Remembers when a container was first seen to have ended: how long ago that is, and how long
    /// it had been up.
    pub fn stamp_exit(&mut self, key: &ResourceKey, cname: &str, now: Instant) -> (r: (
        Duration,
        Duration,
    ))
        ensures
            r.0@ == since_exit(record_of(old(self)@.local, key@, cname@), now),
            r.1@ == uptime(record_of(old(self)@.local, key@, cname@), now),
            match record_of(old(self)@.local, key@, cname@) {
                Some(rec) => final(self)@ == (KubeletView {
                    local: with_record(old(self)@.local, key@, cname@, stamped(rec, now)),
                    ..old(self)@
                }),
                None => final(self)@ == old(self)@,
            },
    {
        if !self.local.contains_key(key) {
            return (Duration::zero(), Duration::zero());
        }
        let mut p = self.take_pod(key);
        let ghost was = p@;
        match p.containers.take(cname) {
            None => {
                assert(p@.containers =~= was.containers);
                self.put_pod(key, p);
                assert(self@.local =~= old(self)@.local);
                (Duration::zero(), Duration::zero())
            },
            Some(rec) => {
                let mut rec = rec;
                let ghost old_rec = rec@;
                let exited = match rec.terminated_at {
                    Some(t) => t,
                    None => now,
                };
                rec.terminated_at = Some(exited);
                let up = match rec.started_at {
                    Some(st) => exited.saturating_duration_since(st),
                    None => Duration::zero(),
                };
                let since = now.saturating_duration_since(exited);
                assert(rec@ == stamped(old_rec, now));
                p.containers.insert(cname, rec);
                assert(p@.containers =~= was.containers.insert(cname@, rec@));
                self.put_pod(key, p);
                assert(self@.local =~= with_record(old(self)@.local, key@, cname@, rec@));
                (since, up)
            },
        }
    }

    /// Remembers that a container was started again, where it is remembered: its probes prove
    /// everything anew, and it keeps what it was started with.
    pub fn note_restart(
        &mut self,
        key: &ResourceKey,
        cname: &str,
        container_id: String,
        restart_count: u32,
        now: Instant,
    )
        ensures
            match record_of(old(self)@.local, key@, cname@) {
                Some(was) => final(self)@ == (KubeletView {
                    local: with_record(
                        old(self)@.local,
                        key@,
                        cname@,
                        restarted_as(was, container_id@, restart_count, now),
                    ),
                    ..old(self)@
                }),
                None => final(self)@ == old(self)@,
            },
    {
        if !self.local.contains_key(key) {
            return ;
        }
        let mut p = self.take_pod(key);
        let ghost was = p@;
        match p.containers.take(cname) {
            None => {
                assert(p@.containers =~= was.containers);
                self.put_pod(key, p);
                assert(self@.local =~= old(self)@.local);
            },
            Some(rec) => {
                let new = ContainerRecord {
                    container_id,
                    restart_count,
                    probes: rec.probes.reset(now),
                    started_at: Some(now),
                    mounts: rec.mounts,
                    terminated_at: None,
                };
                p.containers.insert(cname, new);
                assert(p@.containers =~= was.containers.insert(cname@, new@));
                self.put_pod(key, p);
                assert(self@.local =~= with_record(old(self)@.local, key@, cname@, new@));
            },
        }
    }

    /// Remembers what the probes of a container said last, where it is remembered.
    pub fn note_gates(&mut self, key: &ResourceKey, cname: &str, readings: &ProbeReadings)
        ensures
            match record_of(old(self)@.local, key@, cname@) {
                Some(was) => final(self)@ == (KubeletView {
                    local: with_record(
                        old(self)@.local,
                        key@,
                        cname@,
                        RecordView {
                            probes: probes::all_gated(was.probes, *readings),
                            ..was
                        },
                    ),
                    ..old(self)@
                }),
                None => final(self)@ == old(self)@,
            },
    {
        if !self.local.contains_key(key) {
            return ;
        }
        let mut p = self.take_pod(key);
        let ghost was = p@;
        match p.containers.take(cname) {
            None => {
                assert(p@.containers =~= was.containers);
                self.put_pod(key, p);
                assert(self@.local =~= old(self)@.local);
            },
            Some(rec) => {
                let new = ContainerRecord {
                    container_id: rec.container_id,
                    restart_count: rec.restart_count,
                    probes: with_gates(rec.probes, readings),
                    started_at: rec.started_at,
                    mounts: rec.mounts,
                    terminated_at: rec.terminated_at,
                };
                p.containers.insert(cname, new);
                assert(p@.containers =~= was.containers.insert(cname@, new@));
                self.put_pod(key, p);
                assert(self@.local =~= with_record(old(self)@.local, key@, cname@, new@));
            },
        }
    }

    /// Whether the lease of the node is renewed now.
    pub fn renew_lease(&mut self, now: Instant) -> (r: bool)
        ensures
            r == node_lease::renewal_is_due(old(self)@.last_lease_renewal, now),
            final(self)@ == (KubeletView {
                last_lease_renewal: if r {
                    Some(now)
                } else {
                    old(self)@.last_lease_renewal
                },
                ..old(self)@
            }),
    {
        let (due, last) = renew_due(self.last_lease_renewal, now);
        self.last_lease_renewal = last;
        due
    }
}

// ---- a pass --------------------------------------------------------------------------------

/// The pods that are bound to a node.
pub open spec fn bound_of(pods: Seq<(ResourceKey, Json)>, node: Seq<char>) -> Map<KeyView, Json>
    decreases pods.len(),
{
    if pods.len() == 0 {
        Map::empty()
    } else {
        let rest = bound_of(pods.drop_last(), node);
        if pod_spec::is_bound_to(pods.last().1@, node) {
            rest.insert(pods.last().0@, pods.last().1)
        } else {
            rest
        }
    }
}

/// What is done with a pod that is bound to the node.
#[derive(Clone, Copy, Debug, PartialEq, Eq, Structural)]
pub enum Turn {
    /// Nothing: it ended.
    Leave,
    /// Those of its containers that are not started are.
    Start,
    /// Its containers are looked after.
    Reconcile,
}

/// Whether a pod has no init containers that it still waits for.
pub open spec fn past_init(p: PodView, pod: Doc) -> bool {
    p.init_complete || !(pod.arr_at2("spec"@, "initContainers"@) matches Some(list) && list.len()
        > 0)
}

/// Whether a container of a pod was not started.
pub open spec fn has_missing(p: PodView, pod: Doc) -> bool {
    pod.arr_at2("spec"@, "containers"@) matches Some(list) && exists|i: int|
        0 <= i < list.len() && !p.containers.dom().contains(
            #[trigger] pod_spec::container_name(list[i], i),
        )
}

/// What is done with a pod that is bound to the node: one whose containers were started is looked
/// after, one of which a container is still missing is started further, and one that ended is not
/// started.
pub open spec fn turn_of(local: Map<KeyView, PodView>, k: KeyView, pod: Doc) -> Turn {
    if local.dom().contains(k) {
        if !pod_spec::is_terminal(pod) && past_init(local[k], pod) && has_missing(local[k], pod) {
            Turn::Start
        } else {
            Turn::Reconcile
        }
    } else if pod_spec::is_terminal(pod) {
        Turn::Leave
    } else {
        Turn::Start
    }
}

fn is_past_init(p: &LocalPod, pod: &Json) -> (r: bool)
    ensures
        r == past_init(p@, pod@),
{
    p.init_complete || match pod.arr_at2("spec", "initContainers") {
        Some(list) => {
            proof {
                json::docs_index(list@);
            }
            list.len() == 0
        },
        None => true,
    }
}

fn misses_some(p: &LocalPod, pod: &Json) -> (r: bool)
    ensures
        r == has_missing(p@, pod@),
{
    let list = match pod.arr_at2("spec", "containers") {
        Some(l) => l,
        None => {
            return false;
        },
    };
    let ghost all = json::docs(list@);
    proof {
        json::docs_index(list@);
    }
    let mut i: usize = 0;
    while i < list.len()
        invariant
            i <= list@.len(),
            all == json::docs(list@),
            all.len() == list@.len(),
            forall|k: int| #![trigger all[k]] 0 <= k < list@.len() ==> all[k] == list@[k]@,
            forall|k: int|
                0 <= k < i ==> p@.containers.dom().contains(
                    #[trigger] pod_spec::container_name(all[k], k),
                ),
            pod@.arr_at2("spec"@, "containers"@) == Some(all),
        decreases list@.len() - i,
    {
        let name = name_of(&list[i], i);
        assert(all[i as int] == list@[i as int]@);
        assert(name@ == pod_spec::container_name(all[i as int], i as int));
        if !p.containers.contains_key(name.as_str()) {
            proof {
                let names = pod@.arr_at2("spec"@, "containers"@).unwrap();
                assert(!p@.containers.dom().contains(
                    pod_spec::container_name(names[i as int], i as int),
                ));
            }
            return true;
        }
        i += 1;
    }
    false
}

/// A step of taking a pod down.
#[derive(Debug)]
pub enum CleanupStep {
    /// The container is stopped.
    Stop(String),
    /// The container is removed.
    Remove(String),
    /// The volume is removed.
    RemoveEmptyDir(String),
}

/// What a `CleanupStep` stands for.
pub enum CleanupView {
    Stop(Seq<char>),
    Remove(Seq<char>),
    RemoveEmptyDir(Seq<char>),
}

impl View for CleanupStep {
    type V = CleanupView;

    open spec fn view(&self) -> CleanupView {
        match self {
            CleanupStep::Stop(s) => CleanupView::Stop(s@),
            CleanupStep::Remove(s) => CleanupView::Remove(s@),
            CleanupStep::RemoveEmptyDir(s) => CleanupView::RemoveEmptyDir(s@),
        }
    }
}

/// What a list of steps stands for.
pub open spec fn cleanup_views(v: Seq<CleanupStep>) -> Seq<CleanupView> {
    v.map_values(|s: CleanupStep| s@)
}

/// The steps that take containers down: each is stopped, then removed.
pub open spec fn container_steps(
    names: Seq<Seq<char>>,
    records: Map<Seq<char>, RecordView>,
) -> Seq<CleanupView>
    decreases names.len(),
{
    if names.len() == 0 {
        Seq::empty()
    } else {
        let id = records[names.last()].container_id;
        container_steps(names.drop_last(), records).push(CleanupView::Stop(id)).push(
            CleanupView::Remove(id),
        )
    }
}

/// The steps that take volumes down.
pub open spec fn volume_steps(volumes: Seq<Seq<char>>) -> Seq<CleanupView> {
    volumes.map_values(|v: Seq<char>| CleanupView::RemoveEmptyDir(v))
}

/// The steps that take a pod down: its containers, then its init containers, which those may still
/// be talking to, then its volumes, which nothing uses any more.
pub open spec fn cleanup_of(p: PodView) -> Seq<CleanupView> {
    container_steps(text::sorted(p.containers.dom()), p.containers) + container_steps(
        text::sorted(p.init_containers.dom()),
        p.init_containers,
    ) + volume_steps(p.empty_dir_volumes)
}

fn add_container_steps(out: &mut Vec<CleanupStep>, records: &Table<ContainerRecord>)
    ensures
        cleanup_views(final(out)@) == cleanup_views(old(out)@) + container_steps(
            text::sorted(records@.dom()),
            record_views(records@),
        ),
{
    let ghost before = cleanup_views(out@);
    let names = records.keys();
    let ghost all = text::texts(names@);
    let mut i: usize = 0;
    assert(all.take(0) =~= Seq::<Seq<char>>::empty());
    assert(before + container_steps(all.take(0), record_views(records@)) =~= before);
    while i < names.len()
        invariant
            i <= names@.len(),
            all == text::texts(names@),
            all.to_set() == records@.dom(),
            cleanup_views(out@) == before + container_steps(all.take(i as int), record_views(records@)),
        decreases names@.len() - i,
    {
        assert(all[i as int] == names@[i as int]@);
        assert(all.to_set().contains(all[i as int]));
        assert(all.take(i + 1).drop_last() =~= all.take(i as int));
        assert(all.take(i + 1).last() == all[i as int]);
        if let Some(r) = records.get(names[i].as_str()) {
            let ghost was = out@;
            let s = CleanupStep::Stop(r.container_id.clone());
            let t = CleanupStep::Remove(r.container_id.clone());
            out.push(s);
            out.push(t);
            assert(cleanup_views(out@) =~= cleanup_views(was).push(s@).push(t@));
            assert(cleanup_views(out@) =~= before + container_steps(all.take(i + 1), record_views(records@)));
        }
        i += 1;
    }
    assert(all.take(i as int) =~= all);
}

/// The steps that take a pod down, in order. The first that fails ends it; what is left is done in
/// a later pass.
pub fn cleanup_plan(p: &LocalPod) -> (r: Vec<CleanupStep>)
    ensures
        cleanup_views(r@) == cleanup_of(p@),
{
    let mut out: Vec<CleanupStep> = Vec::new();
    assert(cleanup_views(out@) =~= Seq::<CleanupView>::empty());
    add_container_steps(&mut out, &p.containers);
    add_container_steps(&mut out, &p.init_containers);
    let ghost before = cleanup_views(out@);
    let ghost volumes = p@.empty_dir_volumes;
    let mut i: usize = 0;
    assert(before + volume_steps(volumes.take(0)) =~= before);
    while i < p.empty_dir_volumes.len()
        invariant
            i <= p.empty_dir_volumes@.len(),
            volumes == text::texts(p.empty_dir_volumes@),
            cleanup_views(out@) == before + volume_steps(volumes.take(i as int)),
        decreases p.empty_dir_volumes@.len() - i,
    {
        let ghost was = out@;
        let s = CleanupStep::RemoveEmptyDir(p.empty_dir_volumes[i].clone());
        out.push(s);
        assert(cleanup_views(out@) =~= cleanup_views(was).push(s@));
        assert(volume_steps(volumes.take(i + 1)) =~= volume_steps(volumes.take(i as int)).push(
            CleanupView::RemoveEmptyDir(volumes[i as int]),
        ));
        assert(cleanup_views(out@) =~= before + volume_steps(volumes.take(i + 1)));
        i += 1;
    }
    assert(volumes.take(i as int) =~= volumes);
    assert(p@.containers.dom() =~= p.containers@.dom());
    assert(p@.init_containers.dom() =~= p.init_containers@.dom());
    assert(cleanup_views(out@) =~= cleanup_of(p@));
    out
}

/// The error that a volume which cannot be removed is, in these words.
pub fn empty_dir_error(volume: &str, words: &str) -> (r: KubeletError)
    ensures
        error::backend_error(r, "remove emptyDir "@ + volume@ + ": "@ + words@),
{
    KubeletError::Backend(cat4("remove emptyDir ", volume, ": ", words))
}

impl Kubelet {
    /// The pods that are bound to the node.
    pub fn bound_pods(&self, pods: Vec<(ResourceKey, Json)>) -> (r: KeyTable<Json>)
        ensures
            r@ == bound_of(pods@, self@.node),
    {
        let mut pods = pods;
        let ghost all = pods@;
        let mut out: KeyTable<Json> = KeyTable::new();
        let mut rest: Vec<(ResourceKey, Json)> = Vec::new();
        // The list is turned round, so that its items can be taken out in order.
        while pods.len() > 0
            invariant
                rest@.len() + pods@.len() == all.len(),
                pods@ =~= all.take(pods@.len() as int),
                forall|k: int|
                    0 <= k < rest@.len() ==> #[trigger] rest@[k] == all[all.len() - 1 - k],
            decreases pods@.len(),
        {
            if let Some(e) = pods.pop() {
                rest.push(e);
            }
        }
        assert(all.take(0) =~= Seq::<(ResourceKey, Json)>::empty());
        while rest.len() > 0
            invariant
                rest@.len() <= all.len(),
                forall|k: int|
                    0 <= k < rest@.len() ==> #[trigger] rest@[k] == all[all.len() - 1 - k],
                out@ == bound_of(all.take(all.len() - rest@.len()), self@.node),
            decreases rest@.len(),
        {
            let ghost n = all.len() - rest@.len();
            if let Some(e) = rest.pop() {
                assert(e == all[n]);
                assert(all.take(n + 1).drop_last() =~= all.take(n));
                assert(all.take(n + 1).last() == all[n]);
                if pod_is_bound_to(&e.1, self.node_name.as_str()) {
                    let (k, v) = e;
                    out.insert(&k, v);
                }
            }
        }
        assert(all.take(all.len() as int) =~= all);
        out
    }

    /// The pods that were started and are not bound to the node any more, in order.
    pub fn orphans(&self, bound: &KeyTable<Json>) -> (r: Vec<ResourceKey>)
        ensures
            keyed::ascending(keyed::key_views(r@)),
            keyed::key_views(r@).to_set() == self@.local.dom().difference(bound@.dom()),
    {
        let keys = self.local.keys();
        let ghost all = keyed::key_views(keys@);
        let mut out: Vec<ResourceKey> = Vec::new();
        let mut i: usize = 0;
        assert(keyed::key_views(out@).to_set() =~= all.take(0).to_set().difference(bound@.dom()));
        while i < keys.len()
            invariant
                i <= keys@.len(),
                all == keyed::key_views(keys@),
                keyed::ascending(keyed::key_views(out@)),
                keyed::key_views(out@).to_set() == all.take(i as int).to_set().difference(
                    bound@.dom(),
                ),
            decreases keys@.len() - i,
        {
            proof {
                keyed::one_more_key(all, i as int);
            }
            if !bound.contains_key(&keys[i]) {
                keyed::insert_key(&mut out, keys[i].copy());
            }
            assert(keyed::key_views(out@).to_set() =~= all.take(i + 1).to_set().difference(
                bound@.dom(),
            ));
            i += 1;
        }
        assert(all.take(i as int) =~= all);
        assert(self@.local.dom() =~= self.local@.dom());
        out
    }

    /// What is done with a pod that is bound to the node.
    pub fn turn(&self, key: &ResourceKey, pod: &Json) -> (r: Turn)
        ensures
            r == turn_of(self@.local, key@, pod@),
    {
        match self.local_pod(key) {
            Some(p) => if !pod_already_terminal(pod) && is_past_init(p, pod) && misses_some(p, pod) {
                Turn::Start
            } else {
                Turn::Reconcile
            },
            None => if pod_already_terminal(pod) {
                Turn::Leave
            } else {
                Turn::Start
            },
        }
    }

    /// Takes an orphan's end in: it is forgotten where all of it was taken down, and kept for a
    /// later pass where not.
    pub fn cleaned_up(&mut self, key: &ResourceKey, all_done: bool, tally: &mut Tally)
        ensures
            if all_done {
                &&& final(self)@ == (KubeletView {
                    local: old(self)@.local.remove(key@),
                    ..old(self)@
                })
                &&& final(tally)@ == old(tally)@.changed()
            } else {
                &&& final(self)@ == old(self)@
                &&& final(tally)@ == old(tally)@.skipped()
            },
    {
        if all_done {
            self.forget(key);
            tally.changed();
        } else {
            tally.skipped();
        }
    }

    /// A pass over the pods of the node, of which these are all.
    pub fn tick(&self, pods: Vec<(ResourceKey, Json)>) -> (r: Tick)
        ensures
            r.bound@ == bound_of(pods@, self@.node),
            keyed::ascending(keyed::key_views(r.orphans@)),
            keyed::key_views(r.orphans@).to_set() == self@.local.dom().difference(r.bound@.dom()),
            keyed::key_views(r.keys@) == keyed::sorted(r.bound@.dom()),
            r.tally@ == (TallyView {
                report: ReconcileReport {
                    objects_examined: r.keys@.len() as usize,
                    objects_changed: 0,
                    objects_skipped: 0,
                },
                soonest: None,
                events: Seq::empty(),
            }),
    {
        let bound = self.bound_pods(pods);
        let orphans = self.orphans(&bound);
        let keys = bound.keys();
        let mut tally = Tally::new();
        tally.report.objects_examined = keys.len();
        Tick { bound, orphans, keys, tally }
    }
}

/// A pass over the pods of a node: first those that left it are taken down, then the tokens of the
/// others are made anew, then each of them is started or looked after.
#[derive(Debug)]
pub struct Tick {
    /// The pods that are bound to the node.
    pub bound: KeyTable<Json>,
    /// The pods that were started and are not bound to the node any more, in order.
    pub orphans: Vec<ResourceKey>,
    /// The keys of the pods that are bound to the node, in order.
    pub keys: Vec<ResourceKey>,
    pub tally: Tally,
}

/// When the next pass is due, where this is the soonest span that was asked for: not before a
/// second has passed.
pub open spec fn due_after(soonest: Option<nat>) -> Option<nat> {
    match soonest {
        Some(d) => Some(
            if d < time::secs(1) {
                time::secs(1)
            } else {
                d
            },
        ),
        None => None,
    }
}

impl Tick {
    /// What the pass came to, and when the next one is due.
    pub fn outcome(&self) -> (r: (ReconcileReport, ReconcileResult))
        ensures
            r.0 == self.tally@.report,
            match r.1 {
                ReconcileResult::Done => due_after(self.tally@.soonest) is None,
                ReconcileResult::Requeue(d) => due_after(self.tally@.soonest) == Some(d@),
            },
    {
        (self.tally.report, next_pass(self.tally.soonest))
    }
}

// ---- tokens of service accounts ------------------------------------------------------------

/// What a pass over the tokens of the pods came to.
#[derive(Clone, Copy, Debug, PartialEq, Eq, Structural)]
pub struct SaRefreshReport {
    /// The pods that were looked at.
    pub examined: usize,
    /// The tokens that were made anew and written.
    pub refreshed: usize,
    /// The pods whose token could not be made or written.
    pub failed: usize,
    /// Whether it was not time yet.
    pub skipped_not_due: bool,
}

impl Default for SaRefreshReport {
    fn default() -> (r: SaRefreshReport)
        ensures
            r == (SaRefreshReport {
                examined: 0,
                refreshed: 0,
                failed: 0,
                skipped_not_due: false,
            }),
    {
        SaRefreshReport { examined: 0, refreshed: 0, failed: 0, skipped_not_due: false }
    }
}

/// How often a token is made anew: three times in its life, but not more often than every ten
/// seconds.
pub open spec fn refresh_interval(lifetime: nat) -> nat {
    if lifetime / 3 < time::secs(10) {
        time::secs(10)
    } else {
        lifetime / 3
    }
}

/// How often a token is made anew.
pub fn sa_refresh_interval(lifetime: Duration) -> (r: Duration)
    ensures
        r@ == refresh_interval(lifetime@),
{
    let third = Duration { nanos: lifetime.nanos / 3 };
    third.max(Duration::from_secs(10))
}

/// Whether the tokens are made anew.
#[derive(Clone, Copy, Debug, PartialEq, Eq, Structural)]
pub enum RefreshGate {
    /// There are none.
    NoTokens,
    /// It is not time yet.
    NotDue,
    /// Now.
    Due,
}

/// Whether the tokens, which live this long, are made anew now.
pub open spec fn refresh_gate(lifetime: Option<Duration>, last: Option<Instant>, now: Instant) -> RefreshGate {
    match lifetime {
        None => RefreshGate::NoTokens,
        Some(l) => match last {
            Some(prev) => if time::elapsed(prev@, now@) < refresh_interval(l@) {
                RefreshGate::NotDue
            } else {
                RefreshGate::Due
            },
            None => RefreshGate::Due,
        },
    }
}

/// A pod whose token is made anew.
#[derive(Debug)]
pub struct SaRequest {
    pub namespace: String,
    pub service_account: String,
    pub pod: String,
    pub uid: String,
}

/// What a `SaRequest` stands for.
#[verifier::ext_equal]
pub struct SaView {
    pub namespace: Seq<char>,
    pub service_account: Seq<char>,
    pub pod: Seq<char>,
    pub uid: Seq<char>,
}

impl View for SaRequest {
    type V = SaView;

    open spec fn view(&self) -> SaView {
        SaView {
            namespace: self.namespace@,
            service_account: self.service_account@,
            pod: self.pod@,
            uid: self.uid@,
        }
    }
}

/// The token of a pod.
pub open spec fn sa_of(namespace: Seq<char>, name: Seq<char>, pod: Doc) -> SaView {
    SaView {
        namespace,
        service_account: match pod.str_at2("spec"@, "serviceAccountName"@) {
            Some(s) => s,
            None => "default"@,
        },
        pod: name,
        uid: crate::pod_env::or_empty(pod.str_at2("metadata"@, "uid"@)),
    }
}

/// The token of a pod.
pub fn sa_request(namespace: &str, name: &str, pod: &Json) -> (r: SaRequest)
    ensures
        r@ == sa_of(namespace@, name@, pod@),
{
    SaRequest {
        namespace: namespace.to_owned(),
        service_account: match pod.str_at2("spec", "serviceAccountName") {
            Some(s) => s.to_owned(),
            None => "default".to_owned(),
        },
        pod: name.to_owned(),
        uid: match pod.str_at2("metadata", "uid") {
            Some(u) => u.to_owned(),
            None => String::new(),
        },
    }
}

/// The pods whose tokens are made anew: those among these keys that were started and live in a
/// namespace.
pub open spec fn refreshed_among(
    keys: Seq<KeyView>,
    bound: Map<KeyView, Json>,
    local: Map<KeyView, PodView>,
) -> Seq<SaView>
    decreases keys.len(),
{
    if keys.len() == 0 {
        Seq::empty()
    } else {
        let rest = refreshed_among(keys.drop_last(), bound, local);
        let k = keys.last();
        if local.dom().contains(k) && k.namespace is Some {
            rest.push(sa_of(k.namespace.unwrap(), k.name, bound[k]@))
        } else {
            rest
        }
    }
}

/// What a list of requests stands for.
pub open spec fn sa_views(v: Seq<SaRequest>) -> Seq<SaView> {
    v.map_values(|s: SaRequest| s@)
}

/// What came of making a token anew.
#[derive(Clone, Copy, Debug, PartialEq, Eq, Structural)]
pub enum SaOutcome {
    /// It was made and written.
    Refreshed,
    /// The pod has none.
    Nothing,
    /// It could not be made or written. The pod keeps the one it has.
    Failed,
}

impl SaRefreshReport {
    /// Counts a pod.
    pub fn count(&mut self, outcome: SaOutcome)
        ensures
            *final(self) == (SaRefreshReport {
                examined: report::more(old(self).examined),
                refreshed: if outcome is Refreshed {
                    report::more(old(self).refreshed)
                } else {
                    old(self).refreshed
                },
                failed: if outcome is Failed {
                    report::more(old(self).failed)
                } else {
                    old(self).failed
                },
                ..*old(self)
            }),
    {
        if self.examined < usize::MAX {
            self.examined = self.examined + 1;
        }
        match outcome {
            SaOutcome::Refreshed => if self.refreshed < usize::MAX {
                self.refreshed = self.refreshed + 1;
            },
            SaOutcome::Failed => if self.failed < usize::MAX {
                self.failed = self.failed + 1;
            },
            SaOutcome::Nothing => {},
        }
    }
}

impl Kubelet {
    /// Whether the tokens of the pods, which live this long, are made anew now.
    pub fn refresh_due(&mut self, lifetime: Option<Duration>, now: Instant) -> (r: RefreshGate)
        ensures
            r == refresh_gate(lifetime, old(self)@.last_sa_refresh, now),
            final(self)@ == (KubeletView {
                last_sa_refresh: if r is Due {
                    Some(now)
                } else {
                    old(self)@.last_sa_refresh
                },
                ..old(self)@
            }),
    {
        let life = match lifetime {
            Some(l) => l,
            None => {
                return RefreshGate::NoTokens;
            },
        };
        let interval = sa_refresh_interval(life);
        if let Some(prev) = self.last_sa_refresh {
            if now.saturating_duration_since(prev).nanos < interval.nanos {
                return RefreshGate::NotDue;
            }
        }
        self.last_sa_refresh = Some(now);
        RefreshGate::Due
    }

    /// The pods whose tokens are made anew, in order: those that are bound to the node and were
    /// started. One that was not started gets a token when it is.
    pub fn refresh_service_account_projections(&self, bound: &KeyTable<Json>) -> (r: Vec<SaRequest>)
        ensures
            sa_views(r@) == refreshed_among(
                keyed::sorted(bound@.dom()),
                bound@,
                self@.local,
            ),
    {
        let keys = bound.keys();
        let ghost all = keyed::key_views(keys@);
        let mut out: Vec<SaRequest> = Vec::new();
        let mut i: usize = 0;
        assert(all.take(0) =~= Seq::<KeyView>::empty());
        assert(sa_views(out@) =~= Seq::<SaView>::empty());
        while i < keys.len()
            invariant
                i <= keys@.len(),
                all == keyed::key_views(keys@),
                all.to_set() == bound@.dom(),
                sa_views(out@) == refreshed_among(all.take(i as int), bound@, self@.local),
            decreases keys@.len() - i,
        {
            let key = &keys[i];
            assert(all[i as int] == key@);
            assert(all.to_set().contains(key@));
            assert(all.take(i + 1).drop_last() =~= all.take(i as int));
            assert(all.take(i + 1).last() == key@);
            if self.is_started(key) {
                if let Some(ns) = &key.namespace {
                    if let Some(pod) = bound.get(key) {
                        let ghost was = out@;
                        let q = sa_request(ns.as_str(), key.name.as_str(), pod);
                        out.push(q);
                        assert(sa_views(out@) =~= sa_views(was).push(q@));
                    }
                }
            }
            i += 1;
        }
        assert(all.take(i as int) =~= all);
        out
    }
}

/// A pass over the tokens of the pods: each of these is made anew, and what came of it counted.
#[derive(Debug)]
pub struct RefreshPass {
    pub requests: Vec<SaRequest>,
    /// The place of the pod whose token is made anew.
    pub at: usize,
    pub report: SaRefreshReport,
}

/// What a `RefreshPass` stands for.
#[verifier::ext_equal]
pub struct RefreshView {
    pub requests: Seq<SaView>,
    pub at: int,
    pub report: SaRefreshReport,
}

impl View for RefreshPass {
    type V = RefreshView;

    open spec fn view(&self) -> RefreshView {
        RefreshView {
            requests: sa_views(self.requests@),
            at: self.at as int,
            report: self.report,
        }
    }
}

impl RefreshView {
    /// A pass that can go on: every pod before this one was counted, once, and as no more than one
    /// thing; a pass that came too early has no pods.
    pub open spec fn well_formed(self) -> bool {
        &&& 0 <= self.at <= self.requests.len()
        &&& self.report.examined == self.at
        &&& self.report.refreshed + self.report.failed <= self.report.examined
        &&& self.report.skipped_not_due ==> self.requests.len() == 0
    }
}

/// How a pass over the tokens begins: with no pods but where it is time.
pub open spec fn refresh_begun(
    gate: RefreshGate,
    bound: Map<KeyView, Json>,
    local: Map<KeyView, PodView>,
) -> RefreshView {
    RefreshView {
        requests: if gate is Due {
            refreshed_among(keyed::sorted(bound.dom()), bound, local)
        } else {
            Seq::empty()
        },
        at: 0,
        report: SaRefreshReport {
            examined: 0,
            refreshed: 0,
            failed: 0,
            skipped_not_due: gate is NotDue,
        },
    }
}

/// The pass once this came of making the token of a pod anew.
pub open spec fn after_refresh(v: RefreshView, outcome: SaOutcome) -> RefreshView {
    RefreshView {
        at: v.at + 1,
        report: SaRefreshReport {
            examined: (v.report.examined + 1) as usize,
            refreshed: if outcome is Refreshed {
                (v.report.refreshed + 1) as usize
            } else {
                v.report.refreshed
            },
            failed: if outcome is Failed {
                (v.report.failed + 1) as usize
            } else {
                v.report.failed
            },
            ..v.report
        },
        ..v
    }
}

impl Kubelet {
    /// A pass over the tokens of the pods, which live this long.
    pub fn begin_refresh(
        &mut self,
        lifetime: Option<Duration>,
        now: Instant,
        bound: &KeyTable<Json>,
    ) -> (r: RefreshPass)
        ensures
            r@ == refresh_begun(
                refresh_gate(lifetime, old(self)@.last_sa_refresh, now),
                bound@,
                old(self)@.local,
            ),
            r@.well_formed(),
            final(self)@ == (KubeletView {
                last_sa_refresh: if refresh_gate(lifetime, old(self)@.last_sa_refresh, now) is Due {
                    Some(now)
                } else {
                    old(self)@.last_sa_refresh
                },
                ..old(self)@
            }),
    {
        let mut report = SaRefreshReport::default();
        let requests = match self.refresh_due(lifetime, now) {
            RefreshGate::NoTokens => Vec::new(),
            RefreshGate::NotDue => {
                report.skipped_not_due = true;
                Vec::new()
            },
            RefreshGate::Due => self.refresh_service_account_projections(bound),
        };
        let pass = RefreshPass { requests, at: 0, report };
        assert(pass@ =~= refresh_begun(
            refresh_gate(lifetime, old(self)@.last_sa_refresh, now),
            bound@,
            old(self)@.local,
        ));
        pass
    }
}

impl RefreshPass {
    /// The pod whose token is made anew, where there is another.
    pub fn next(&self) -> (r: Option<&SaRequest>)
        ensures
            if self@.at < self@.requests.len() {
                r matches Some(q) && q@ == self@.requests[self@.at]
            } else {
                r is None
            },
    {
        if self.at < self.requests.len() {
            Some(&self.requests[self.at])
        } else {
            None
        }
    }

    /// Takes in what came of making the token anew.
    pub fn counted(&mut self, outcome: SaOutcome)
        requires
            old(self)@.well_formed(),
            old(self)@.at < old(self)@.requests.len(),
        ensures
            final(self)@ == after_refresh(old(self)@, outcome),
            final(self)@.well_formed(),
    {
        assert(self.at < self.requests.len());
        self.report.count(outcome);
        self.at = self.at + 1;
    }

    /// What the pass came to: every pod was looked at.
    pub fn finish(self) -> (r: SaRefreshReport)
        requires
            self@.well_formed(),
            self@.at == self@.requests.len(),
        ensures
            r == self@.report,
            r.examined == self@.requests.len(),
            r.refreshed + r.failed <= r.examined,
    {
        self.report
    }
}

// ---- what is asked of a node ---------------------------------------------------------------

/// The key of a pod.
pub open spec fn pod_key(namespace: Seq<char>, name: Seq<char>) -> KeyView {
    resource::key_in(""@, "v1"@, "Pod"@, namespace, name)
}

/// The key of a pod.
pub fn key_of_pod(namespace: &str, name: &str) -> (r: ResourceKey)
    ensures
        r@ == pod_key(namespace@, name@),
{
    ResourceKey::namespaced("", "v1", "Pod", namespace, name)
}

/// Whether a pod has a container that was started.
pub open spec fn has_ids(p: PodView) -> bool {
    exists|c: Seq<char>| #[trigger]
        p.containers.dom().contains(c) && p.containers[c].container_id.len() > 0
}

/// Whether a container is up, in what is published of a pod.
pub open spec fn shows_running(pod: Doc) -> bool {
    pod.arr_at2("status"@, "containerStatuses"@) matches Some(list) && exists|i: int|
        0 <= i < list.len() && (#[trigger] list[i]).get2("state"@, "running"@) is Some
}

fn has_started_container(p: &LocalPod) -> (r: bool)
    ensures
        r == has_ids(p@),
{
    let names = p.containers.keys();
    let ghost all = text::texts(names@);
    let mut i: usize = 0;
    while i < names.len()
        invariant
            i <= names@.len(),
            all == text::texts(names@),
            all.to_set() == p.containers@.dom(),
            forall|j: int|
                #![trigger all[j]]
                0 <= j < i ==> p.containers@[all[j]].container_id@.len() == 0,
        decreases names@.len() - i,
    {
        assert(all[i as int] == names@[i as int]@);
        assert(all.to_set().contains(all[i as int]));
        if let Some(rec) = p.containers.get(names[i].as_str()) {
            if !rec.container_id.as_str().is_empty() {
                assert(p@.containers.dom().contains(all[i as int]));
                return true;
            }
        }
        i += 1;
    }
    proof {
        if has_ids(p@) {
            let c = choose|c: Seq<char>| #[trigger]
                p@.containers.dom().contains(c) && p@.containers[c].container_id.len() > 0;
            assert(all.to_set().contains(c));
            let j = choose|j: int| 0 <= j < all.len() && all[j] == c;
            assert(p.containers@[all[j]].container_id@.len() == 0);
        }
    }
    false
}

fn is_shown_running(pod: &Json) -> (r: bool)
    ensures
        r == shows_running(pod@),
{
    if let Some(list) = pod.arr_at2("status", "containerStatuses") {
        let ghost all = json::docs(list@);
        let mut i: usize = 0;
        while i < list.len()
            invariant
                i <= list@.len(),
                all == json::docs(list@),
                pod@.arr_at2("status"@, "containerStatuses"@) == Some(all),
                forall|k: int|
                    0 <= k < i ==> (#[trigger] all[k]).get2("state"@, "running"@) is None,
            decreases list@.len() - i,
        {
            proof {
                json::docs_index(list@);
            }
            assert(all[i as int] == list@[i as int]@);
            if list[i].get2("state", "running").is_some() {
                return true;
            }
            i += 1;
        }
        proof {
            json::docs_index(list@);
        }
    }
    false
}

/// Of these pods, those that are shown.
pub open spec fn shown(pods: Seq<Json>, running_only: bool) -> Seq<Doc>
    decreases pods.len(),
{
    if pods.len() == 0 {
        Seq::empty()
    } else {
        let rest = shown(pods.drop_last(), running_only);
        if running_only && !shows_running(pods.last()@) {
            rest
        } else {
            rest.push(pods.last()@)
        }
    }
}

/// A list of pods.
pub open spec fn pod_list_doc(items: Seq<Doc>) -> Doc {
    Doc::Obj(
        map![
            "kind"@ => Doc::Str("PodList"@),
            "apiVersion"@ => Doc::Str("v1"@),
            "items"@ => Doc::Arr(items)
        ],
    )
}

/// A list of these pods, or of those among them of which a container is up.
pub fn pod_list(pods: &[Json], running_only: bool) -> (r: Json)
    ensures
        r@ == pod_list_doc(shown(pods@, running_only)),
{
    let mut items: Vec<Json> = Vec::new();
    let mut i: usize = 0;
    assert(json::docs(items@) =~= Seq::<Doc>::empty());
    assert(pods@.take(0) =~= Seq::<Json>::empty());
    while i < pods.len()
        invariant
            i <= pods@.len(),
            json::docs(items@) == shown(pods@.take(i as int), running_only),
        decreases pods@.len() - i,
    {
        assert(pods@.take(i + 1).drop_last() =~= pods@.take(i as int));
        if !running_only || is_shown_running(&pods[i]) {
            let ghost was = items@;
            items.push(pods[i].copy());
            assert(items@.drop_last() =~= was);
        }
        i += 1;
    }
    assert(pods@.take(i as int) =~= pods@);
    Json::object().with("kind", Json::string("PodList")).with(
        "apiVersion",
        Json::string("v1"),
    ).with("items", Json::array(items))
}

/// The words for a container that does not run on the node.
pub open spec fn not_here(namespace: Seq<char>, pod: Seq<char>, container: Seq<char>) -> Seq<char> {
    "no container "@ + text::debug_text(container) + " of pod "@ + crate::pod_env::pod_label(
        namespace,
        pod,
    ) + " is running on this node"@
}

/// The words for a container that does not run on the node.
pub fn no_such_container(namespace: &str, pod: &str, container: &str) -> (r: String)
    ensures
        r@ == not_here(namespace@, pod@, container@),
{
    let label = cat3(namespace, "/", pod);
    crate::text::cat5(
        "no container ",
        debug_of(container).as_str(),
        " of pod ",
        label.as_str(),
        " is running on this node",
    )
}

/// Whether this is the container whose log is read, or why there is none. Where none is named it
/// is the first one.
pub open spec fn log_target_is(
    local: Map<KeyView, PodView>,
    namespace: Seq<char>,
    name: Seq<char>,
    container: Option<Seq<char>>,
    r: Result<String, KubeletError>,
) -> bool {
    let k = pod_key(namespace, name);
    let label = crate::pod_env::pod_label(namespace, name);
    if !local.dom().contains(k) {
        r matches Err(e) && error::invalid_pod(
            e,
            label,
            "pod is not running on this node (no local container record)"@,
        )
    } else {
        let containers = local[k].containers;
        match container {
            Some(c) => if containers.dom().contains(c) {
                r matches Ok(id) && id@ == containers[c].container_id
            } else {
                r matches Err(e) && error::invalid_pod(
                    e,
                    label,
                    "container "@ + text::debug_text(c) + " not found in pod"@,
                )
            },
            None => {
                let names = text::sorted(containers.dom());
                if names.len() > 0 {
                    r matches Ok(id) && id@ == containers[names[0]].container_id
                } else {
                    r matches Err(e) && error::invalid_pod(
                        e,
                        label,
                        "pod has no started containers"@,
                    )
                }
            },
        }
    }
}

impl Kubelet {
    /// What the runtime calls the container whose log is read.
    pub fn log_target(&self, namespace: &str, name: &str, container: Option<&str>) -> (r: Result<
        String,
        KubeletError,
    >)
        ensures
            log_target_is(
                self@.local,
                namespace@,
                name@,
                lifecycle::opt_text(container),
                r,
            ),
    {
        let key = key_of_pod(namespace, name);
        let lp = match self.local_pod(&key) {
            Some(p) => p,
            None => {
                return Err(
                    crate::pod_env::refuse(
                        namespace,
                        name,
                        "pod is not running on this node (no local container record)".to_owned(),
                    ),
                );
            },
        };
        match container {
            Some(c) => match lp.containers.get(c) {
                Some(rec) => Ok(rec.container_id.clone()),
                None => Err(
                    crate::pod_env::refuse(
                        namespace,
                        name,
                        cat3("container ", debug_of(c).as_str(), " not found in pod"),
                    ),
                ),
            },
            None => {
                let names = lp.containers.keys();
                let ghost all = text::texts(names@);
                assert(lp@.containers.dom() =~= lp.containers@.dom());
                if names.len() > 0 {
                    assert(all[0] == names@[0]@);
                    assert(all.to_set().contains(all[0]));
                    if let Some(rec) = lp.containers.get(names[0].as_str()) {
                        return Ok(rec.container_id.clone());
                    }
                }
                Err(
                    crate::pod_env::refuse(
                        namespace,
                        name,
                        "pod has no started containers".to_owned(),
                    ),
                )
            },
        }
    }

    /// What the runtime calls a container of a pod: one of the containers, or else one of the init
    /// containers.
    pub fn container_id_of(&self, namespace: &str, pod: &str, container: &str) -> (r: Option<String>)
        ensures
            lifecycle::opt_string(r) == match record_of(
                self@.local,
                pod_key(namespace@, pod@),
                container@,
            ) {
                Some(rec) => Some(rec.container_id),
                None => match init_record_of(
                    self@.local,
                    pod_key(namespace@, pod@),
                    container@,
                ) {
                    Some(rec) => Some(rec.container_id),
                    None => None,
                },
            },
    {
        let key = key_of_pod(namespace, pod);
        match self.local_pod(&key) {
            None => None,
            Some(p) => match p.containers.get(container) {
                Some(rec) => Some(rec.container_id.clone()),
                None => match p.init_containers.get(container) {
                    Some(rec) => Some(rec.container_id.clone()),
                    None => None,
                },
            },
        }
    }

    /// The keys of the pods that were started, or of those among them of which a container was, in
    /// order.
    pub fn listed_keys(&self, running_only: bool) -> (r: Vec<ResourceKey>)
        ensures
            keyed::ascending(keyed::key_views(r@)),
            forall|k: KeyView| #[trigger]
                keyed::key_views(r@).to_set().contains(k) <==> self@.local.dom().contains(k) && (
                !running_only || has_ids(self@.local[k])),
    {
        let keys = self.local.keys();
        let ghost all = keyed::key_views(keys@);
        let mut out: Vec<ResourceKey> = Vec::new();
        let mut i: usize = 0;
        while i < keys.len()
            invariant
                i <= keys@.len(),
                all == keyed::key_views(keys@),
                all.to_set() == self.local@.dom(),
                keyed::ascending(keyed::key_views(out@)),
                forall|k: KeyView| #[trigger]
                    keyed::key_views(out@).to_set().contains(k) <==> all.take(
                        i as int,
                    ).to_set().contains(k) && (!running_only || has_ids(self@.local[k])),
            decreases keys@.len() - i,
        {
            let ghost key = keys@[i as int]@;
            let ghost was = keyed::key_views(out@).to_set();
            assert(all[i as int] == key);
            assert(all.to_set().contains(key));
            proof {
                keyed::one_more_key(all, i as int);
            }
            if let Some(p) = self.local.get(&keys[i]) {
                assert(self@.local[key] == p@);
                if !running_only || has_started_container(p) {
                    keyed::insert_key(&mut out, keys[i].copy());
                    assert(keyed::key_views(out@).to_set() == was.insert(key));
                }
            }
            i += 1;
        }
        assert(all.take(i as int) =~= all);
        assert forall|k: KeyView| #[trigger]
            keyed::key_views(out@).to_set().contains(k) <==> self@.local.dom().contains(k) && (
            !running_only || has_ids(self@.local[k])) by {
            assert(all.to_set().contains(k) <==> all.contains(k));
        }
        out
    }
}

// ---- laws ----------------------------------------------------------------------------------

/// A pod all of whose containers were started is not started a second time: it is looked after as
/// long as it is bound to the node, whatever is published of it.
pub proof fn started_once(local: Map<KeyView, PodView>, k: KeyView, pod: Doc)
    requires
        local.dom().contains(k),
        !has_missing(local[k], pod),
    ensures
        turn_of(local, k, pod) == Turn::Reconcile,
{
}

/// A container that could not be started is tried again in the next pass, until every container of
/// the pod was started: a pod that has not ended and waits for no init container converges.
pub proof fn the_missing_are_tried_again(local: Map<KeyView, PodView>, k: KeyView, pod: Doc)
    requires
        !pod_spec::is_terminal(pod),
        local.dom().contains(k) ==> past_init(local[k], pod) && has_missing(local[k], pod),
    ensures
        turn_of(local, k, pod) == Turn::Start,
{
}

/// A pod that ended and is not remembered is left alone.
pub proof fn ended_pods_are_left_alone(local: Map<KeyView, PodView>, k: KeyView, pod: Doc)
    requires
        !local.dom().contains(k),
        pod_spec::is_terminal(pod),
    ensures
        turn_of(local, k, pod) == Turn::Leave,
{
}

proof fn container_steps_shape(
    names: Seq<Seq<char>>,
    records: Map<Seq<char>, RecordView>,
    i: int,
)
    requires
        0 <= i < names.len(),
    ensures
        container_steps(names, records).len() == 2 * names.len(),
        container_steps(names, records)[2 * i] == CleanupView::Stop(
            records[names[i]].container_id,
        ),
        container_steps(names, records)[2 * i + 1] == CleanupView::Remove(
            records[names[i]].container_id,
        ),
    decreases names.len(),
{
    let rest = names.drop_last();
    if i < names.len() - 1 {
        container_steps_shape(rest, records, i);
        assert(rest[i] == names[i]);
    } else if rest.len() > 0 {
        container_steps_shape(rest, records, 0);
    } else {
        assert(container_steps(rest, records) =~= Seq::<CleanupView>::empty());
    }
}

/// Each container is stopped and right after it removed, and no init container is touched before
/// the last container is gone.
pub proof fn containers_go_first(p: PodView, i: int, j: int)
    requires
        0 <= i < text::sorted(p.containers.dom()).len(),
        0 <= j < text::sorted(p.init_containers.dom()).len(),
    ensures
        ({
            let names = text::sorted(p.containers.dom());
            let inits = text::sorted(p.init_containers.dom());
            let n = 2 * names.len();
            &&& cleanup_of(p)[2 * i] == CleanupView::Stop(p.containers[names[i]].container_id)
            &&& cleanup_of(p)[2 * i + 1] == CleanupView::Remove(
                p.containers[names[i]].container_id,
            )
            &&& cleanup_of(p)[n + 2 * j] == CleanupView::Stop(
                p.init_containers[inits[j]].container_id,
            )
            &&& 2 * i + 1 < n + 2 * j
        }),
{
    let names = text::sorted(p.containers.dom());
    let inits = text::sorted(p.init_containers.dom());
    container_steps_shape(names, p.containers, i);
    container_steps_shape(inits, p.init_containers, j);
    let a = container_steps(names, p.containers);
    let b = container_steps(inits, p.init_containers);
    let c = volume_steps(p.empty_dir_volumes);
    assert((a + b + c)[2 * i] == a[2 * i]);
    assert((a + b + c)[2 * i + 1] == a[2 * i + 1]);
    assert((a + b + c)[a.len() + 2 * j] == b[2 * j]);
}

/// With a pass at `last` behind it, a pass over the tokens before a third of their life has passed,
/// or ten seconds where that is longer, makes none anew and says that it came too early; from then
/// on it makes anew that of every pod of a namespace that is bound and was started.
pub proof fn tokens_wait_their_time(
    lifetime: Duration,
    last: Instant,
    now: Instant,
    bound: Map<KeyView, Json>,
    local: Map<KeyView, PodView>,
)
    ensures
        ({
            let v = refresh_begun(refresh_gate(Some(lifetime), Some(last), now), bound, local);
            if time::elapsed(last@, now@) < refresh_interval(lifetime@) {
                &&& v.requests.len() == 0
                &&& v.report == (SaRefreshReport {
                    examined: 0,
                    refreshed: 0,
                    failed: 0,
                    skipped_not_due: true,
                })
            } else {
                &&& v.requests == refreshed_among(keyed::sorted(bound.dom()), bound, local)
                &&& !v.report.skipped_not_due
            }
        }),
{
}

/// A pass over the tokens that is over looked at every pod it had, and no pod counts both as one
/// whose token was made anew and as one whose token was not.
pub proof fn every_token_is_counted(v: RefreshView, outcome: SaOutcome)
    requires
        v.well_formed(),
    ensures
        v.at == v.requests.len() ==> v.report.examined == v.requests.len(),
        v.report.refreshed + v.report.failed <= v.report.examined,
        v.at < v.requests.len() && v.requests.len() <= usize::MAX ==> {
            let w = after_refresh(v, outcome);
            &&& w.well_formed()
            &&& w.report.skipped_not_due == v.report.skipped_not_due
            &&& w.report.refreshed == v.report.refreshed + if outcome is Refreshed {
                1int
            } else {
                0
            }
            &&& w.report.failed == v.report.failed + if outcome is Failed {
                1int
            } else {
                0
            }
        },
{
}

/// A token is made anew before it ends, where it lives for thirty seconds or more: three times
/// over.
pub proof fn tokens_are_made_anew_in_time(lifetime: nat)
    requires
        lifetime >= time::secs(30),
    ensures
        3 * refresh_interval(lifetime) <= lifetime,
{
}

/// When a container ended is remembered as it was first seen: looking again does not put it off.
pub proof fn an_exit_is_stamped_once(rec: RecordView, first: Instant, later: Instant)
    ensures
        stamped(stamped(rec, first), later) == stamped(rec, first),
{
}

/// How long ago a container ended and how long it was up before are measured from what is remembered
/// of it: from its first sight as ended and from its start. One that is only now seen to have ended
/// ended now, and one of which nothing is remembered did not run.
pub proof fn ends_and_uptimes_are_measured(rec: RecordView, start: Instant, end: Instant, now: Instant)
    requires
        start@ <= end@ <= now@,
    ensures
        since_exit(Some(RecordView { terminated_at: Some(end), ..rec }), now) + end@ == now@,
        since_exit(Some(RecordView { terminated_at: None, ..rec }), now) == 0,
        since_exit(None, now) == 0,
        uptime(
            Some(RecordView { started_at: Some(start), terminated_at: Some(end), ..rec }),
            now,
        ) + start@ == end@,
        uptime(
            Some(RecordView { started_at: Some(start), terminated_at: None, ..rec }),
            now,
        ) + start@ == now@,
        uptime(Some(RecordView { started_at: None, ..rec }), now) == 0,
        uptime(None, now) == 0,
{
}

/// What is remembered of a container is what was last kept of it, and keeping it changes nothing that
/// is remembered of any other.
pub proof fn what_is_kept_is_remembered(
    local: Map<KeyView, PodView>,
    k: KeyView,
    cname: Seq<char>,
    rec: RecordView,
    other: KeyView,
    name: Seq<char>,
)
    ensures
        record_of(with_record(local, k, cname, rec), k, cname) == Some(rec),
        init_record_of(with_init_record(local, k, cname, rec), k, cname) == Some(rec),
        other != k || name != cname ==> {
            &&& record_of(with_record(local, k, cname, rec), other, name) == record_of(
                local,
                other,
                name,
            )
            &&& init_record_of(with_init_record(local, k, cname, rec), other, name)
                == init_record_of(local, other, name)
        },
        init_record_of(with_record(local, k, cname, rec), other, name) == init_record_of(
            local,
            other,
            name,
        ),
        record_of(with_init_record(local, k, cname, rec), other, name) == record_of(
            local,
            other,
            name,
        ),
        local.dom().contains(k) ==> {
            &&& with_record(local, k, cname, rec)[k].init_complete == local[k].init_complete
            &&& with_record(local, k, cname, rec)[k].empty_dir_volumes
                == local[k].empty_dir_volumes
            &&& with_init_record(local, k, cname, rec)[k].init_complete == local[k].init_complete
        },
        !local.dom().contains(k) ==> record_of(local, k, cname) is None && init_record_of(
            local,
            k,
            cname,
        ) is None,
{
}

/// A container that was started over runs from now, under its new id and count, with the mounts that
/// it had; that it had ended is forgotten.
pub proof fn a_restart_begins_anew(was: RecordView, id: Seq<char>, count: u32, now: Instant)
    ensures
        ({
            let rec = restarted_as(was, id, count, now);
            &&& rec.container_id == id
            &&& rec.restart_count == count
            &&& rec.started_at == Some(now)
            &&& rec.terminated_at is None
            &&& rec.mounts == was.mounts
            &&& rec.probes == probes::reset_at(was.probes, now)
        }),
{
}

/// A pod is looked at exactly where it names this node, and as it was last listed.
pub proof fn the_pods_of_this_node(pods: Seq<(ResourceKey, Json)>, node: Seq<char>, k: KeyView)
    ensures
        bound_of(pods, node).dom().contains(k) <==> exists|i: int|
            0 <= i < pods.len() && (#[trigger] pods[i]).0@ == k && pods[i].1@.str_at2(
                "spec"@,
                "nodeName"@,
            ) == Some(node),
        bound_of(pods, node).dom().contains(k) ==> exists|i: int|
            0 <= i < pods.len() && (#[trigger] pods[i]).0@ == k && pods[i].1 == bound_of(
                pods,
                node,
            )[k] && pods[i].1@.str_at2("spec"@, "nodeName"@) == Some(node) && forall|j: int|
                i < j < pods.len() && (#[trigger] pods[j]).0@ == k ==> pods[j].1@.str_at2(
                    "spec"@,
                    "nodeName"@,
                ) != Some(node),
    decreases pods.len(),
{
    if pods.len() > 0 {
        let front = pods.drop_last();
        let n = pods.len() - 1;
        the_pods_of_this_node(front, node, k);
        if pods.last().0@ == k && pod_spec::is_bound_to(pods.last().1@, node) {
            assert(pods[n].0@ == k);
        } else {
            if bound_of(front, node).dom().contains(k) {
                let i = choose|i: int|
                    0 <= i < front.len() && (#[trigger] front[i]).0@ == k && front[i].1
                        == bound_of(front, node)[k] && front[i].1@.str_at2("spec"@, "nodeName"@)
                        == Some(node) && forall|j: int|
                        i < j < front.len() && (#[trigger] front[j]).0@ == k
                            ==> front[j].1@.str_at2("spec"@, "nodeName"@) != Some(node);
                assert(pods[i] == front[i]);
                assert forall|j: int| i < j < pods.len() && (#[trigger] pods[j]).0@ == k implies pods[j].1@.str_at2(
                    "spec"@,
                    "nodeName"@,
                ) != Some(node) by {
                    if j < n {
                        assert(front[j] == pods[j]);
                    }
                }
            }
            if exists|i: int|
                0 <= i < pods.len() && (#[trigger] pods[i]).0@ == k && pods[i].1@.str_at2(
                    "spec"@,
                    "nodeName"@,
                ) == Some(node) {
                let i = choose|i: int|
                    0 <= i < pods.len() && (#[trigger] pods[i]).0@ == k && pods[i].1@.str_at2(
                        "spec"@,
                        "nodeName"@,
                    ) == Some(node);
                assert(i < n);
                assert(front[i] == pods[i]);
            }
        }
    }
}

/// What is done with a pod. One of which nothing is remembered is started, unless it succeeded or
/// failed already: that one is left. One that is remembered is looked after, but started further where
/// it has not ended, has no init containers to wait for and lacks a container of its manifest.
pub proof fn what_is_done_with_a_pod(local: Map<KeyView, PodView>, k: KeyView, pod: Doc)
    ensures
        ({
            let ended = pod.str_at2("status"@, "phase"@) == Some("Succeeded"@) || pod.str_at2(
                "status"@,
                "phase"@,
            ) == Some("Failed"@);
            &&& turn_of(local, k, pod) is Leave <==> ended && !local.dom().contains(k)
            &&& !local.dom().contains(k) && !ended ==> turn_of(local, k, pod) is Start
            &&& local.dom().contains(k) && ended ==> turn_of(local, k, pod) is Reconcile
            &&& local.dom().contains(k) && !ended ==> (turn_of(local, k, pod) is Start <==> {
                &&& local[k].init_complete || pod.arr_at2("spec"@, "initContainers"@) is None
                    || pod.arr_at2("spec"@, "initContainers"@).unwrap().len() == 0
                &&& pod.arr_at2("spec"@, "containers"@) is Some
                &&& exists|i: int|
                    0 <= i < pod.arr_at2("spec"@, "containers"@).unwrap().len()
                        && !local[k].containers.dom().contains(
                        #[trigger] pod_spec::container_name(
                            pod.arr_at2("spec"@, "containers"@).unwrap()[i],
                            i,
                        ),
                    )
            })
        }),
{
}

/// Taking a pod down stops and removes every container and every init container of it, and removes
/// every volume that lives with it, last. There is no other step.
pub proof fn nothing_of_a_pod_is_left_behind(
    p: PodView,
    names: Seq<Seq<char>>,
    inits: Seq<Seq<char>>,
    i: int,
    j: int,
    v: int,
)
    requires
        text::ascending(names) && names.to_set() == p.containers.dom(),
        text::ascending(inits) && inits.to_set() == p.init_containers.dom(),
        0 <= i < names.len(),
        0 <= j < inits.len(),
        0 <= v < p.empty_dir_volumes.len(),
    ensures
        ({
            let steps = cleanup_of(p);
            let n = 2 * names.len() as int;
            let m = 2 * inits.len() as int;
            &&& steps.len() == n + m + p.empty_dir_volumes.len()
            &&& steps[2 * i] == CleanupView::Stop(p.containers[names[i]].container_id)
            &&& steps[2 * i + 1] == CleanupView::Remove(p.containers[names[i]].container_id)
            &&& steps[n + 2 * j] == CleanupView::Stop(p.init_containers[inits[j]].container_id)
            &&& steps[n + 2 * j + 1] == CleanupView::Remove(
                p.init_containers[inits[j]].container_id,
            )
            &&& steps[n + m + v] == CleanupView::RemoveEmptyDir(p.empty_dir_volumes[v])
        }),
{
    text::ascending_is_unique(names, text::sorted(p.containers.dom()));
    text::ascending_is_unique(inits, text::sorted(p.init_containers.dom()));
    container_steps_shape(names, p.containers, i);
    container_steps_shape(inits, p.init_containers, j);
    let a = container_steps(names, p.containers);
    let b = container_steps(inits, p.init_containers);
    let c = volume_steps(p.empty_dir_volumes);
    assert((a + b + c)[2 * i] == a[2 * i]);
    assert((a + b + c)[2 * i + 1] == a[2 * i + 1]);
    assert((a + b + c)[a.len() + 2 * j] == b[2 * j]);
    assert((a + b + c)[a.len() + 2 * j + 1] == b[2 * j + 1]);
    assert((a + b + c)[a.len() + b.len() + v] == c[v]);
}

/// Tokens are made anew every third of their life, but not more often than every ten seconds, from
/// the first pass on; where there are none, never.
pub proof fn when_tokens_are_made_anew(lifetime: Duration, last: Instant, now: Instant)
    requires
        last@ <= now@,
    ensures
        refresh_gate(None, Some(last), now) is NoTokens,
        refresh_gate(None, None, now) is NoTokens,
        refresh_gate(Some(lifetime), None, now) is Due,
        refresh_gate(Some(lifetime), Some(last), now) is Due <==> now@ >= last@ + 10_000_000_000
            && now@ >= last@ + lifetime@ / 3,
        refresh_gate(Some(lifetime), Some(last), now) is Due || refresh_gate(
            Some(lifetime),
            Some(last),
            now,
        ) is NotDue,
        refresh_interval(lifetime@) >= 10_000_000_000,
        lifetime@ >= 30_000_000_000 ==> refresh_interval(lifetime@) == lifetime@ / 3,
        lifetime@ < 30_000_000_000 ==> refresh_interval(lifetime@) == 10_000_000_000,
{
}

/// A token is asked for in the namespace of the pod, for the account that it names, or the default
/// one, and for this pod by its name and its uid.
pub proof fn what_a_token_is_for(namespace: Seq<char>, name: Seq<char>, pod: Doc)
    ensures
        sa_of(namespace, name, pod).namespace == namespace,
        sa_of(namespace, name, pod).pod == name,
        match pod.str_at2("spec"@, "serviceAccountName"@) {
            Some(s) => sa_of(namespace, name, pod).service_account == s,
            None => sa_of(namespace, name, pod).service_account == "default"@,
        },
        match pod.str_at2("metadata"@, "uid"@) {
            Some(s) => sa_of(namespace, name, pod).uid == s,
            None => sa_of(namespace, name, pod).uid.len() == 0,
        },
{
    reveal_strlit("");
}

/// The token of every pod that was started and lives in a namespace is made anew, and no other.
pub proof fn whose_tokens_are_made_anew(
    keys: Seq<KeyView>,
    bound: Map<KeyView, Json>,
    local: Map<KeyView, PodView>,
    t: SaView,
)
    ensures
        refreshed_among(keys, bound, local).contains(t) <==> exists|i: int|
            0 <= i < keys.len() && local.dom().contains(#[trigger] keys[i])
                && keys[i].namespace is Some && t == sa_of(
                keys[i].namespace.unwrap(),
                keys[i].name,
                bound[keys[i]]@,
            ),
        refreshed_among(keys, bound, local).len() <= keys.len(),
    decreases keys.len(),
{
    if keys.len() > 0 {
        let front = keys.drop_last();
        let k = keys.last();
        whose_tokens_are_made_anew(front, bound, local, t);
        let rest = refreshed_among(front, bound, local);
        let all = refreshed_among(keys, bound, local);
        if rest.contains(t) {
            let i = choose|i: int|
                0 <= i < front.len() && local.dom().contains(#[trigger] front[i])
                    && front[i].namespace is Some && t == sa_of(
                    front[i].namespace.unwrap(),
                    front[i].name,
                    bound[front[i]]@,
                );
            assert(keys[i] == front[i]);
            let j = choose|j: int| 0 <= j < rest.len() && rest[j] == t;
            assert(all[j] == t);
        }
        if local.dom().contains(k) && k.namespace is Some {
            let own = sa_of(k.namespace.unwrap(), k.name, bound[k]@);
            assert(all[rest.len() as int] == own);
            assert(keys[keys.len() - 1] == k);
            if all.contains(t) {
                let j = choose|j: int| 0 <= j < all.len() && all[j] == t;
                if j < rest.len() {
                    assert(rest[j] == t);
                }
            }
        }
        if exists|i: int|
            0 <= i < keys.len() && local.dom().contains(#[trigger] keys[i])
                && keys[i].namespace is Some && t == sa_of(
                keys[i].namespace.unwrap(),
                keys[i].name,
                bound[keys[i]]@,
            ) {
            let i = choose|i: int|
                0 <= i < keys.len() && local.dom().contains(#[trigger] keys[i])
                    && keys[i].namespace is Some && t == sa_of(
                    keys[i].namespace.unwrap(),
                    keys[i].name,
                    bound[keys[i]]@,
                );
            if i < front.len() {
                assert(front[i] == keys[i]);
            }
        }
    }
}

/// A list of pods holds every pod, in order, and where only those that run are asked for each one
/// that is published to have a container up, and no other.
pub proof fn which_pods_are_shown(pods: Seq<Json>, d: Doc)
    ensures
        shown(pods, false).len() == pods.len(),
        forall|i: int| 0 <= i < pods.len() ==> #[trigger] shown(pods, false)[i] == pods[i]@,
        shown(pods, true).contains(d) <==> exists|i: int|
            0 <= i < pods.len() && (#[trigger] pods[i])@ == d && d.arr_at2(
                "status"@,
                "containerStatuses"@,
            ) is Some && exists|k: int|
                0 <= k < d.arr_at2("status"@, "containerStatuses"@).unwrap().len() && (
                #[trigger] d.arr_at2("status"@, "containerStatuses"@).unwrap()[k]).get2(
                    "state"@,
                    "running"@,
                ) is Some,
    decreases pods.len(),
{
    if pods.len() > 0 {
        let front = pods.drop_last();
        which_pods_are_shown(front, d);
        let rest = shown(front, true);
        let all = shown(pods, true);
        let whole = shown(pods, false);
        assert forall|i: int| 0 <= i < pods.len() implies #[trigger] whole[i] == pods[i]@ by {
            if i < front.len() {
                assert(shown(front, false)[i] == front[i]@);
            }
        }
        if rest.contains(d) {
            let j = choose|j: int| 0 <= j < rest.len() && rest[j] == d;
            assert(all[j] == d);
            let i = choose|i: int| 0 <= i < front.len() && (#[trigger] front[i])@ == d;
            assert(pods[i]@ == d);
        }
        if all.contains(d) {
            let j = choose|j: int| 0 <= j < all.len() && all[j] == d;
            if j < rest.len() {
                assert(rest[j] == d);
            } else {
                assert(pods[pods.len() - 1]@ == d);
                assert(shows_running(d));
            }
        }
        if shows_running(d) && (exists|i: int| 0 <= i < pods.len() && (#[trigger] pods[i])@ == d) {
            let i = choose|i: int| 0 <= i < pods.len() && (#[trigger] pods[i])@ == d;
            if i < front.len() {
                assert(front[i]@ == d);
            } else {
                assert(all[rest.len() as int] == d);
            }
        }
    }
}

/// The log of a container that runs here is read under its id, by its name; where none is named, that
/// of the container whose name comes first. Nothing is read of a pod or a container that is not here.
pub proof fn whose_log_is_read(
    local: Map<KeyView, PodView>,
    namespace: Seq<char>,
    name: Seq<char>,
    container: Option<Seq<char>>,
    names: Seq<Seq<char>>,
    r: Result<String, KubeletError>,
)
    requires
        log_target_is(local, namespace, name, container, r),
        local.dom().contains(pod_key(namespace, name)) ==> text::ascending(names)
            && names.to_set() == local[pod_key(namespace, name)].containers.dom(),
    ensures
        ({
            let k = pod_key(namespace, name);
            &&& r is Ok ==> local.dom().contains(k)
            &&& local.dom().contains(k) ==> match container {
                Some(c) => if names.contains(c) {
                    r is Ok && r->Ok_0@ == local[k].containers[c].container_id
                } else {
                    r is Err
                },
                None => if names.len() > 0 {
                    r is Ok && r->Ok_0@ == local[k].containers[names[0]].container_id
                } else {
                    r is Err
                },
            }
        }),
{
    let k = pod_key(namespace, name);
    if local.dom().contains(k) {
        text::ascending_is_unique(names, text::sorted(local[k].containers.dom()));
        if let Some(c) = container {
            assert(names.to_set().contains(c) <==> names.contains(c));
        }
    }
}

/// The next pass is due after the soonest span that was asked for, but not before a second.
pub proof fn when_the_next_pass_is_due(soonest: nat)
    ensures
        due_after(None) is None,
        due_after(Some(soonest)) matches Some(d) && d >= soonest && d >= 1_000_000_000 && (d
            == soonest || d == 1_000_000_000),
{
}

/// Where and by whom a pod is known.
pub proof fn a_pod_is_known_by_its_namespace_and_name(
    namespace: Seq<char>,
    name: Seq<char>,
    n: Seq<char>,
    m: Seq<char>,
)
    ensures
        pod_key(namespace, name) == pod_key(n, m) <==> namespace == n && name == m,
        pod_key(namespace, name).kind == "Pod"@,
        pod_key(namespace, name).version == "v1"@,
        pod_key(namespace, name).group.len() == 0,
        pod_key(namespace, name).namespace == Some(namespace),
        pod_key(namespace, name).name == name,
{
    reveal_strlit("");
}

/// One container with an id is enough for a pod to count as one that runs, and none is not.
pub proof fn one_id_is_enough(p: PodView, c: Seq<char>)
    ensures
        p.containers.dom().contains(c) && p.containers[c].container_id.len() > 0 ==> has_ids(p),
        (forall|n: Seq<char>| #[trigger]
            p.containers.dom().contains(n) ==> p.containers[n].container_id.len() == 0)
            ==> !has_ids(p),
{
}

/// What is remembered of a container and of a pod is told whole.
pub proof fn what_is_remembered_is_told_whole(r: ContainerRecord, p: LocalPod, name: Seq<char>)
    ensures
        r@.container_id == r.container_id@,
        r@.restart_count == r.restart_count,
        r@.probes == r.probes,
        r@.started_at == r.started_at,
        r@.mounts == r.mounts@,
        r@.terminated_at == r.terminated_at,
        p@.containers.dom() == p.containers@.dom(),
        p.containers@.dom().contains(name) ==> p@.containers[name] == p.containers@[name]@,
        p@.init_containers.dom() == p.init_containers@.dom(),
        p.init_containers@.dom().contains(name) ==> p@.init_containers[name]
            == p.init_containers@[name]@,
        p@.init_complete == p.init_complete,
        p@.empty_dir_volumes == text::texts(p.empty_dir_volumes@),
{
    assert(p@.containers.dom() =~= p.containers@.dom());
    assert(p@.init_containers.dom() =~= p.init_containers@.dom());
}

/// A node is known whole by what it keeps: its name, each pod of which something was started, and when
/// its lease and its tokens were last seen to.
proof fn what_a_node_keeps_is_told_whole(k: Kubelet, key: KeyView)
    ensures
        k@.node == k.node_name@,
        k@.local.dom() == k.local@.dom(),
        k.local@.dom().contains(key) ==> k@.local[key] == k.local@[key]@,
        k@.last_lease_renewal == k.last_lease_renewal,
        k@.last_sa_refresh == k.last_sa_refresh,
{
    assert(k@.local.dom() =~= k.local@.dom());
}

/// A list of pods says that it is one, and holds the pods in order.
pub proof fn what_a_list_of_pods_says(items: Seq<Doc>)
    ensures
        pod_list_doc(items).str_at("kind"@) == Some("PodList"@),
        pod_list_doc(items).str_at("apiVersion"@) == Some("v1"@),
        pod_list_doc(items).arr_at("items"@) == Some(items),
{
    reveal_strlit("kind");
    reveal_strlit("apiVersion");
    reveal_strlit("items");
    assert("kind"@.len() == 4);
    assert("apiVersion"@.len() == 10);
    assert("items"@.len() == 5);
}

/// A pass over the tokens has the pods that are due, in order and from the first, and no pods where it
/// is not time; whether it came too early is said.
pub proof fn how_a_refresh_begins(
    gate: RefreshGate,
    bound: Map<KeyView, Json>,
    local: Map<KeyView, PodView>,
)
    ensures
        ({
            let v = refresh_begun(gate, bound, local);
            &&& v.at == 0
            &&& !(gate is Due) ==> v.requests.len() == 0
            &&& gate is Due ==> v.requests == refreshed_among(
                keyed::sorted(bound.dom()),
                bound,
                local,
            )
            &&& v.report.skipped_not_due <==> gate is NotDue
            &&& v.report.examined == 0
            &&& v.report.refreshed == 0
            &&& v.report.failed == 0
        }),
{
}

/// What came of a token is counted once, for the pod at hand, and the next pod comes next.
pub proof fn what_came_of_a_token_is_counted(v: RefreshView, outcome: SaOutcome)
    requires
        v.well_formed(),
        v.at < v.requests.len() <= usize::MAX,
    ensures
        ({
            let w = after_refresh(v, outcome);
            &&& w.at == v.at + 1
            &&& w.requests == v.requests
            &&& w.report.examined == v.report.examined + 1
            &&& outcome is Refreshed ==> w.report.refreshed == v.report.refreshed + 1
                && w.report.failed == v.report.failed
            &&& outcome is Failed ==> w.report.failed == v.report.failed + 1 && w.report.refreshed
                == v.report.refreshed
            &&& outcome is Nothing ==> w.report.failed == v.report.failed && w.report.refreshed
                == v.report.refreshed
        }),
{
}

/// A pod is past its init containers where that is remembered or it has none, and lacks a container
/// where one of its manifest is not remembered.
pub proof fn what_a_pod_still_lacks(p: PodView, pod: Doc, list: Seq<Doc>, i: int)
    ensures
        p.init_complete ==> past_init(p, pod),
        pod.arr_at2("spec"@, "initContainers"@) is None ==> past_init(p, pod),
        !p.init_complete && pod.arr_at2("spec"@, "initContainers"@) == Some(list) ==> (past_init(
            p,
            pod,
        ) <==> list.len() == 0),
        pod.arr_at2("spec"@, "containers"@) is None ==> !has_missing(p, pod),
        pod.arr_at2("spec"@, "containers"@) == Some(list) && 0 <= i < list.len()
            && !p.containers.dom().contains(pod_spec::container_name(list[i], i)) ==> has_missing(
            p,
            pod,
        ),
        pod.arr_at2("spec"@, "containers"@) == Some(list) && (forall|k: int|
            0 <= k < list.len() ==> p.containers.dom().contains(
                #[trigger] pod_spec::container_name(list[k], k),
            )) ==> !has_missing(p, pod),
{
    if pod.arr_at2("spec"@, "containers"@) == Some(list) && 0 <= i < list.len() {
        let n = pod_spec::container_name(list[i], i);
        if !p.containers.dom().contains(n) {
            assert(!p.containers.dom().contains(pod_spec::container_name(list[i], i)));
            let own = pod.arr_at2("spec"@, "containers"@).unwrap();
            assert(!p.containers.dom().contains(pod_spec::container_name(own[i], i)));
        }
    }
}

} // verus!
