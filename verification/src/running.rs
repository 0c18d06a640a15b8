//! Looking after the containers of a pod that was started: each is polled, probed and, where its
//! policy says so, started again, and what was seen of all of them is published.

use vstd::prelude::*;
use crate::backend::{clone_mounts, ContainerSpec, ContainerStatus, ResolvedMount, SpecView};
use crate::backoff::{self, decide, BackoffDecision};
use crate::cri::ExitDisposition;
use crate::json::{Doc, Json};
use crate::kubelet::{self, Kubelet, KubeletView, PodView};
use crate::lifecycle::{
    self,
    reconcile_pod_phase,
    ContainerObservation,
    ContainerState,
    ContainerStatusOut,
    InitKind,
    ObsView,
    RestartPolicy,
    StateView,
    StatusView,
    Termination,
};
use crate::number::{self, decimal_i128, decimal_i64, decimal_u64};
use crate::pod_spec;
use crate::pod_status::{self, build_pod_status, build_pod_status_with_init};
use crate::probes::{self, judge, ProbeKinds, ProbeReadings};
use crate::report::{self, one_more, EventReason, Tally, TallyView};
use crate::resource::{self, KeyView, ResourceKey};
use crate::services::{self, service_name_resolution};
use crate::text::{cat5, cat7, clone_opt};
use crate::time::Instant;

verus! {

/// What was remembered of a container when the pass began.
#[derive(Debug)]
pub struct RecordRef {
    pub container_id: String,
    pub restart_count: u32,
    pub probes: ProbeKinds,
}

/// Why a container is started again.
#[derive(Clone, Copy, Debug, PartialEq, Eq, Structural)]
pub enum Cause {
    /// A probe failed too often. Whether the container was ready is kept for when it stays up.
    Probe { ready: bool },
    /// It ended like this.
    Exit(Termination),
}

/// What a pass waits for.
#[derive(Debug)]
pub enum RunStage {
    /// What the runtime says of the container.
    Polling,
    /// What the probes of the container, which is reached here, say.
    Probing { pod_ip: Option<String> },
    /// Whether the container was started again.
    Restarting(Cause),
    /// Nothing: all containers were looked after.
    Over,
}

/// What a `RunStage` stands for.
pub enum StageView {
    Polling,
    Probing { pod_ip: Option<Seq<char>> },
    Restarting(Cause),
    Over,
}

impl View for RunStage {
    type V = StageView;

    open spec fn view(&self) -> StageView {
        match self {
            RunStage::Polling => StageView::Polling,
            RunStage::Probing { pod_ip } => StageView::Probing {
                pod_ip: lifecycle::opt_string(*pod_ip),
            },
            RunStage::Restarting(c) => StageView::Restarting(*c),
            RunStage::Over => StageView::Over,
        }
    }
}

/// A pass over the containers of a pod.
#[derive(Debug)]
pub struct RunningPass {
    pub key: ResourceKey,
    /// The containers of the manifest, in order.
    pub specs: Vec<(String, ContainerSpec)>,
    /// What was remembered of each when the pass began.
    pub before: Vec<Option<RecordRef>>,
    pub policy: RestartPolicy,
    /// The place of the container that is looked after.
    pub at: usize,
    pub stage: RunStage,
    /// What was seen of the containers so far.
    pub observations: Vec<ContainerObservation>,
    /// The first address that was seen.
    pub pod_ip: Option<String>,
    /// Whether the runtime lost a container.
    pub vanished: bool,
    pub tally: Tally,
}

/// What a `RunningPass` stands for.
#[verifier::ext_equal]
pub struct RunView {
    pub key: KeyView,
    pub specs: Seq<(Seq<char>, SpecView)>,
    pub before: Seq<Option<RecordRef>>,
    pub policy: RestartPolicy,
    pub at: int,
    pub stage: StageView,
    pub observations: Seq<ObsView>,
    pub pod_ip: Option<Seq<char>>,
    pub vanished: bool,
    pub tally: TallyView,
}

impl View for RunningPass {
    type V = RunView;

    open spec fn view(&self) -> RunView {
        RunView {
            key: self.key@,
            specs: pod_spec::spec_views(self.specs@),
            before: self.before@,
            policy: self.policy,
            at: self.at as int,
            stage: self.stage@,
            observations: lifecycle::obs_views(self.observations@),
            pod_ip: lifecycle::opt_string(self.pod_ip),
            vanished: self.vanished,
            tally: self.tally@,
        }
    }
}

impl RunView {
    /// The name of the container that is looked after.
    pub open spec fn name(self) -> Seq<char> {
        self.specs[self.at].0
    }

    /// What was remembered of the container that is looked after.
    pub open spec fn record(self) -> RecordRef {
        self.before[self.at].unwrap()
    }

    /// A pass that can go on: the container that is looked after was started, and where none was
    /// lost, what was seen of those before it is kept for each of them.
    pub open spec fn well_formed(self) -> bool {
        &&& self.before.len() == self.specs.len()
        &&& 0 <= self.at <= self.specs.len()
        &&& if self.stage is Over {
            self.at == self.specs.len()
        } else {
            self.at < self.specs.len() && self.before[self.at] is Some
        }
        &&& !self.vanished ==> {
            &&& self.observations.len() == self.at
            &&& forall|i: int|
                0 <= i < self.at ==> (#[trigger] self.observations[i]).name == self.specs[i].0
        }
    }
}

/// The pass at the next container that was started: those before it wait to be.
pub open spec fn to_next(v: RunView) -> RunView
    decreases v.before.len() - v.at,
{
    if v.at < 0 || v.at >= v.before.len() {
        RunView { stage: StageView::Over, ..v }
    } else if v.before[v.at] is None {
        to_next(
            RunView {
                observations: v.observations.push(lifecycle::waiting_view(v.name())),
                at: v.at + 1,
                ..v
            },
        )
    } else {
        RunView { stage: StageView::Polling, ..v }
    }
}

/// The pass after the container was seen like this.
pub open spec fn observed(v: RunView, o: ObsView) -> RunView {
    to_next(RunView { observations: v.observations.push(o), at: v.at + 1, ..v })
}

/// The first of two addresses.
pub open spec fn first_ip(a: Option<Seq<char>>, b: Option<Seq<char>>) -> Option<Seq<char>> {
    match a {
        Some(ip) => Some(ip),
        None => b,
    }
}

/// What the runtime says of a container that was started.
#[derive(Debug)]
pub enum Poll {
    Seen(ContainerStatus),
    /// It does not know the container.
    Gone,
    /// It did not answer.
    Failed,
}

/// The words for a container that is held back.
pub open spec fn back_off_text(name: Seq<char>, nanos: nat, restarts: u32) -> Seq<char> {
    "Back-off restarting failed container "@ + name + " ("@ + number::decimal(
        (nanos / 1_000_000_000) as int,
    ) + "s remaining, "@ + number::decimal(restarts as int) + " prior restarts)"@
}

/// The words for a container that was started again.
pub open spec fn restart_text(name: Seq<char>, cause: Cause, n: u32) -> Seq<char> {
    match cause {
        Cause::Probe { .. } => "Container "@ + name
            + " failed its liveness/startup probe and was restarted (restart #"@ + number::decimal(
            n as int,
        ) + ")"@,
        Cause::Exit(t) => "Restarted container "@ + name + " (exit "@ + number::decimal(
            lifecycle::published_code(t),
        ) + ", restart #"@ + number::decimal(n as int) + ")"@,
    }
}

/// What is remembered once a container was seen to have ended.
pub open spec fn exit_stamped(
    local: Map<KeyView, PodView>,
    k: KeyView,
    name: Seq<char>,
    now: Instant,
) -> Map<KeyView, PodView> {
    match kubelet::record_of(local, k, name) {
        Some(rec) => kubelet::with_record(local, k, name, kubelet::stamped(rec, now)),
        None => local,
    }
}

/// Whether a container that ended and is to be started again is started again now.
pub open spec fn hold(v: RunView, local: Map<KeyView, PodView>, now: Instant) -> BackoffDecision {
    let rec = kubelet::record_of(local, v.key, v.name());
    backoff::decided(
        v.record().restart_count as nat,
        kubelet::since_exit(rec, now),
        kubelet::uptime(rec, now),
    )
}

/// What is known of a container that the runtime did not answer for: that it was started. Where it
/// would be started again it waits to be seen; where it would not it counts as up until it is seen
/// to have ended.
pub open spec fn unanswered(policy: RestartPolicy, name: Seq<char>, rec: RecordRef) -> ObsView {
    lifecycle::started_view(
        name,
        rec.container_id@,
        rec.restart_count,
        if policy is Never {
            StateView::Running
        } else {
            StateView::Waiting { reason: "ContainerCreating"@ }
        },
        false,
    )
}

/// The pass once the runtime said this of the container.
pub open spec fn after_poll(v: RunView, local: Map<KeyView, PodView>, poll: Poll, now: Instant) -> RunView {
    let name = v.name();
    let rec = v.record();
    let id = rec.container_id@;
    let count = rec.restart_count;
    match poll {
        Poll::Failed => observed(
            RunView { tally: v.tally.skipped(), ..v },
            unanswered(v.policy, name, rec),
        ),
        Poll::Gone => to_next(RunView { vanished: true, at: v.at + 1, ..v }),
        Poll::Seen(s) => {
            let ip = lifecycle::opt_string(s.pod_ip);
            let w = RunView { pod_ip: first_ip(v.pod_ip, ip), ..v };
            let exit = lifecycle::ended_as(s.exit_code);
            if s.running {
                if probes::any_of(rec.probes) {
                    RunView { stage: StageView::Probing { pod_ip: first_ip(ip, v.pod_ip) }, ..w }
                } else {
                    observed(
                        w,
                        lifecycle::started_view(name, id, count, StateView::Running, true),
                    )
                }
            } else if !lifecycle::restarts(v.policy, exit) {
                observed(
                    w,
                    lifecycle::started_view(name, id, count, StateView::Terminated(exit), false),
                )
            } else {
                match hold(v, local, now) {
                    BackoffDecision::Wait { remaining } => observed(
                        RunView {
                            tally: w.tally.within(remaining@).told(
                                EventReason::BackOff,
                                back_off_text(name, remaining@, count),
                            ),
                            ..w
                        },
                        lifecycle::started_view(
                            name,
                            id,
                            count,
                            StateView::Waiting { reason: "CrashLoopBackOff"@ },
                            false,
                        ),
                    ),
                    BackoffDecision::Restart => RunView {
                        stage: StageView::Restarting(Cause::Exit(exit)),
                        ..w
                    },
                }
            }
        },
    }
}

/// What is remembered once the runtime said this of the container.
pub open spec fn local_after_poll(
    v: RunView,
    local: Map<KeyView, PodView>,
    poll: Poll,
    now: Instant,
) -> Map<KeyView, PodView> {
    match poll {
        Poll::Seen(s) => if !s.running && lifecycle::restarts(
            v.policy,
            lifecycle::ended_as(s.exit_code),
        ) {
            exit_stamped(local, v.key, v.name(), now)
        } else {
            local
        },
        _ => local,
    }
}

/// The pass once the probes of the container said this.
pub open spec fn after_probes(v: RunView, readings: ProbeReadings) -> RunView {
    let out = probes::outcome_of(readings);
    let w = RunView {
        tally: TallyView {
            soonest: probes::soonest_with(v.tally.soonest, readings),
            ..v.tally
        },
        ..v
    };
    if out.needs_restart && v.policy != RestartPolicy::Never {
        RunView { stage: StageView::Restarting(Cause::Probe { ready: out.ready }), ..w }
    } else {
        observed(
            w,
            lifecycle::started_view(
                v.name(),
                v.record().container_id@,
                v.record().restart_count,
                StateView::Running,
                out.ready,
            ),
        )
    }
}

/// What is remembered once the probes of the container said this.
pub open spec fn local_after_probes(
    v: RunView,
    local: Map<KeyView, PodView>,
    readings: ProbeReadings,
) -> Map<KeyView, PodView> {
    match kubelet::record_of(local, v.key, v.name()) {
        Some(rec) => kubelet::with_record(
            local,
            v.key,
            v.name(),
            kubelet::RecordView { probes: probes::all_gated(rec.probes, readings), ..rec },
        ),
        None => local,
    }
}

/// The pass once the container was started again, or was not. One that was started again for its
/// probes is not ready before they say so; one that had ended is.
pub open spec fn after_restart(v: RunView, started: Option<ContainerStatus>) -> RunView {
    let cause = v.stage->Restarting_0;
    let rec = v.record();
    let n = report::more_of(rec.restart_count);
    match started {
        Some(s) => observed(
            RunView {
                pod_ip: first_ip(v.pod_ip, lifecycle::opt_string(s.pod_ip)),
                tally: v.tally.changed().told(
                    match cause {
                        Cause::Probe { .. } => EventReason::Unhealthy,
                        Cause::Exit(_) => EventReason::Started,
                    },
                    restart_text(v.name(), cause, n),
                ),
                ..v
            },
            lifecycle::started_view(
                v.name(),
                s.container_id@,
                n,
                StateView::Running,
                cause is Exit,
            ),
        ),
        None => observed(
            RunView { tally: v.tally.skipped(), ..v },
            match cause {
                Cause::Probe { ready } => lifecycle::started_view(
                    v.name(),
                    rec.container_id@,
                    rec.restart_count,
                    StateView::Running,
                    ready,
                ),
                Cause::Exit(t) => lifecycle::started_view(
                    v.name(),
                    rec.container_id@,
                    rec.restart_count,
                    StateView::Terminated(t),
                    false,
                ),
            },
        ),
    }
}

/// What is remembered once the container was started again, or was not.
pub open spec fn local_after_restart(
    v: RunView,
    local: Map<KeyView, PodView>,
    started: Option<ContainerStatus>,
    now: Instant,
) -> Map<KeyView, PodView> {
    match (started, kubelet::record_of(local, v.key, v.name())) {
        (Some(s), Some(was)) => kubelet::with_record(
            local,
            v.key,
            v.name(),
            kubelet::restarted_as(
                was,
                s.container_id@,
                report::more_of(v.record().restart_count),
                now,
            ),
        ),
        _ => local,
    }
}

/// What is asked for.
#[derive(Debug)]
pub enum RunningCall {
    /// What the runtime says of this container.
    Poll { id: String },
    /// What the probes of this container, which is reached here, say: one reading of each of these
    /// kinds.
    Probe { name: String, id: String, pod_ip: Option<String>, kinds: ProbeKinds },
    /// Stopping and removing the container of this id, whatever comes of it, and starting the one
    /// of `RunningPass::restart_spec` in its place.
    Restart { old_id: String },
    /// Nothing more.
    Finish,
}

/// What a `RunningCall` stands for.
pub enum CallView {
    Poll { id: Seq<char> },
    Probe { name: Seq<char>, id: Seq<char>, pod_ip: Option<Seq<char>>, kinds: ProbeKinds },
    Restart { old_id: Seq<char> },
    Finish,
}

impl View for RunningCall {
    type V = CallView;

    open spec fn view(&self) -> CallView {
        match self {
            RunningCall::Poll { id } => CallView::Poll { id: id@ },
            RunningCall::Probe { name, id, pod_ip, kinds } => CallView::Probe {
                name: name@,
                id: id@,
                pod_ip: lifecycle::opt_string(*pod_ip),
                kinds: *kinds,
            },
            RunningCall::Restart { old_id } => CallView::Restart { old_id: old_id@ },
            RunningCall::Finish => CallView::Finish,
        }
    }
}

/// The mounts that a container was started with.
pub open spec fn mounts_of(local: Map<KeyView, PodView>, k: KeyView, name: Seq<char>) -> Seq<
    ResolvedMount,
> {
    match kubelet::record_of(local, k, name) {
        Some(rec) => rec.mounts,
        None => Seq::empty(),
    }
}

/// What a pass asks for.
pub open spec fn asks(v: RunView) -> CallView {
    match v.stage {
        StageView::Polling => CallView::Poll { id: v.record().container_id@ },
        StageView::Probing { pod_ip } => CallView::Probe {
            name: v.name(),
            id: v.record().container_id@,
            pod_ip,
            kinds: v.record().probes,
        },
        StageView::Restarting(_) => CallView::Restart { old_id: v.record().container_id@ },
        StageView::Over => CallView::Finish,
    }
}

/// What a container is started again as: with the mounts that it was started with, and with the
/// names that the services of now give it.
pub open spec fn restarts_as(
    v: RunView,
    local: Map<KeyView, PodView>,
    pod: Doc,
    own: Seq<(KeyView, Doc)>,
    all: Seq<(KeyView, Doc)>,
) -> SpecView {
    let namespace = resource::namespace_of(v.key);
    SpecView {
        mounts: mounts_of(local, v.key, v.name()),
        network_aliases: services::alias_names(own, namespace, pod),
        host_add: services::host_names(all, namespace),
        ..v.specs[v.at].1
    }
}

/// What was remembered of the containers of a pod when a pass over these began.
pub open spec fn remembered(
    local: Map<KeyView, PodView>,
    k: KeyView,
    name: Seq<char>,
    r: Option<RecordRef>,
) -> bool {
    match kubelet::record_of(local, k, name) {
        Some(rec) => r matches Some(x) && x.container_id@ == rec.container_id && x.restart_count
            == rec.restart_count && x.probes == probes::kinds_of(rec.probes),
        None => r is None,
    }
}

proof fn to_next_keeps_form(v: RunView)
    requires
        v.before.len() == v.specs.len(),
        0 <= v.at <= v.specs.len(),
        !v.vanished ==> {
            &&& v.observations.len() == v.at
            &&& forall|i: int|
                0 <= i < v.at ==> (#[trigger] v.observations[i]).name == v.specs[i].0
        },
    ensures
        to_next(v).well_formed(),
        to_next(v).key == v.key,
        to_next(v).specs == v.specs,
        to_next(v).before == v.before,
        to_next(v).policy == v.policy,
        to_next(v).pod_ip == v.pod_ip,
        to_next(v).vanished == v.vanished,
        to_next(v).tally == v.tally,
        to_next(v).at >= v.at,
        to_next(v).stage is Over || to_next(v).stage is Polling,
    decreases v.before.len() - v.at,
{
    if v.at < v.before.len() && v.before[v.at] is None {
        to_next_keeps_form(
            RunView {
                observations: v.observations.push(lifecycle::waiting_view(v.name())),
                at: v.at + 1,
                ..v
            },
        );
    }
}

/// Whether this is how a pass over these containers begins: at the first of which something is
/// remembered.
pub open spec fn begun(
    p: RunningPass,
    local: Map<KeyView, PodView>,
    k: KeyView,
    specs: Seq<(Seq<char>, SpecView)>,
    policy: RestartPolicy,
    t: TallyView,
) -> bool {
    &&& p.before@.len() == specs.len()
    &&& forall|i: int|
        0 <= i < specs.len() ==> remembered(local, k, specs[i].0, #[trigger] p.before@[i])
    &&& p@ == to_next(
        RunView {
            key: k,
            specs,
            before: p.before@,
            policy,
            at: 0,
            stage: StageView::Polling,
            observations: Seq::empty(),
            pod_ip: None,
            vanished: false,
            tally: t,
        },
    )
}

impl RunningPass {
    /// A pass over the containers of a pod.
    pub fn begin(
        kubelet: &Kubelet,
        key: &ResourceKey,
        specs: Vec<(String, ContainerSpec)>,
        policy: RestartPolicy,
        tally: Tally,
    ) -> (r: RunningPass)
        ensures
            r@.well_formed(),
            begun(
                r,
                kubelet@.local,
                key@,
                pod_spec::spec_views(specs@),
                policy,
                tally@,
            ),
    {
        let mut before: Vec<Option<RecordRef>> = Vec::new();
        let mut i: usize = 0;
        while i < specs.len()
            invariant
                i <= specs@.len(),
                before@.len() == i,
                forall|j: int|
                    0 <= j < i ==> remembered(
                        kubelet@.local,
                        key@,
                        specs@[j].0@,
                        #[trigger] before@[j],
                    ),
            decreases specs@.len() - i,
        {
            let r = match kubelet.local_pod(key) {
                Some(p) => match p.containers.get(specs[i].0.as_str()) {
                    Some(rec) => Some(
                        RecordRef {
                            container_id: rec.container_id.clone(),
                            restart_count: rec.restart_count,
                            probes: rec.probes.kinds(),
                        },
                    ),
                    None => None,
                },
                None => None,
            };
            before.push(r);
            i += 1;
        }
        let mut pass = RunningPass {
            key: key.copy(),
            specs,
            before,
            policy,
            at: 0,
            stage: RunStage::Polling,
            observations: Vec::new(),
            pod_ip: None,
            vanished: false,
            tally,
        };
        assert(pass@.observations =~= Seq::<ObsView>::empty());
        pass.advance();
        pass
    }

    fn advance(&mut self)
        requires
            old(self)@.before.len() == old(self)@.specs.len(),
            old(self)@.at <= old(self)@.specs.len(),
            !old(self)@.vanished ==> {
                &&& old(self)@.observations.len() == old(self)@.at
                &&& forall|i: int|
                    0 <= i < old(self)@.at ==> (#[trigger] old(self)@.observations[i]).name
                        == old(self)@.specs[i].0
            },
        ensures
            final(self)@ == to_next(old(self)@),
            final(self)@.well_formed(),
            final(self).before@ == old(self).before@,
    {
        let ghost v = self@;
        proof {
            to_next_keeps_form(v);
        }
        while self.at < self.before.len() && self.before[self.at].is_none()
            invariant
                self@.at <= self@.before.len(),
                self@.before.len() == self@.specs.len(),
                to_next(self@) == to_next(v),
                self.before@ == old(self).before@,
            decreases self@.before.len() - self@.at,
        {
            let ghost was = self@;
            let o = ContainerObservation::waiting(self.specs[self.at].0.as_str());
            assert(o@ == lifecycle::waiting_view(was.name()));
            self.observations.push(o);
            self.at = self.at + 1;
            assert(self@.observations =~= was.observations.push(o@));
            assert(self@ =~= (RunView {
                observations: was.observations.push(lifecycle::waiting_view(was.name())),
                at: was.at + 1,
                ..was
            }));
        }
        if self.at < self.before.len() {
            self.stage = RunStage::Polling;
        } else {
            self.stage = RunStage::Over;
        }
    }

    fn observe(&mut self, o: ContainerObservation)
        requires
            old(self)@.well_formed(),
            !(old(self)@.stage is Over),
            o@.name == old(self)@.name(),
        ensures
            final(self)@ == observed(old(self)@, o@),
            final(self)@.well_formed(),
            final(self).before@ == old(self).before@,
    {
        let ghost was = self@;
        assert(was.at < self.specs.len());
        self.observations.push(o);
        self.at = self.at + 1;
        assert(self@.observations =~= was.observations.push(o@));
        assert(self@ =~= (RunView {
            observations: was.observations.push(o@),
            at: was.at + 1,
            ..was
        }));
        self.advance();
    }

    fn note_ip(&mut self, ip: &Option<String>)
        ensures
            final(self)@ == (RunView {
                pod_ip: first_ip(old(self)@.pod_ip, lifecycle::opt_string(*ip)),
                ..old(self)@
            }),
    {
        if self.pod_ip.is_none() {
            self.pod_ip = clone_opt(ip);
        }
    }

    /// What the pass asks for.
    pub fn call(&self) -> (r: RunningCall)
        requires
            self@.well_formed(),
        ensures
            r@ == asks(self@),
    {
        match &self.stage {
            RunStage::Over => RunningCall::Finish,
            RunStage::Polling => match &self.before[self.at] {
                Some(rec) => RunningCall::Poll { id: rec.container_id.clone() },
                None => RunningCall::Finish,
            },
            RunStage::Probing { pod_ip } => match &self.before[self.at] {
                Some(rec) => RunningCall::Probe {
                    name: self.specs[self.at].0.clone(),
                    id: rec.container_id.clone(),
                    pod_ip: clone_opt(pod_ip),
                    kinds: rec.probes,
                },
                None => RunningCall::Finish,
            },
            RunStage::Restarting(_) => match &self.before[self.at] {
                Some(rec) => RunningCall::Restart { old_id: rec.container_id.clone() },
                None => RunningCall::Finish,
            },
        }
    }

    /// The container that is started in place of the old one. `own` are the services of the pod's
    /// namespace, `all` those of every namespace.
    pub fn restart_spec(
        &self,
        kubelet: &Kubelet,
        pod: &Json,
        own: &[(ResourceKey, Json)],
        all: &[(ResourceKey, Json)],
    ) -> (r: ContainerSpec)
        requires
            self@.well_formed(),
            self@.stage is Restarting,
        ensures
            r@ == restarts_as(
                self@,
                kubelet@.local,
                pod@,
                services::service_views(own@),
                services::service_views(all@),
            ),
    {
        let name = self.specs[self.at].0.as_str();
        let mounts: Vec<ResolvedMount> = match kubelet.local_pod(&self.key) {
            Some(p) => match p.containers.get(name) {
                Some(r) => clone_mounts(r.mounts.as_slice()),
                None => Vec::new(),
            },
            None => Vec::new(),
        };
        assert(mounts@ =~= mounts_of(kubelet@.local, self@.key, self@.name()));
        let names = service_name_resolution(pod, self.key.namespace_or_default(), own, all);
        self.specs[self.at].1.copy().with_names(
            names.0.as_slice(),
            names.1.as_slice(),
        ).with_mounts(mounts)
    }

    /// Takes in what the runtime says of the container.
    pub fn polled(&mut self, kubelet: &mut Kubelet, poll: Poll, now: Instant)
        requires
            old(self)@.well_formed(),
            old(self)@.stage is Polling,
        ensures
            final(self)@ == after_poll(old(self)@, old(kubelet)@.local, poll, now),
            final(self)@.well_formed(),
            final(kubelet)@ == (KubeletView {
                local: local_after_poll(old(self)@, old(kubelet)@.local, poll, now),
                ..old(kubelet)@
            }),
    {
        let ghost was = self@;
        let name = self.specs[self.at].0.clone();
        let (id, count, has_probes): (String, u32, bool) = match &self.before[self.at] {
            Some(rec) => (rec.container_id.clone(), rec.restart_count, rec.probes.any()),
            None => (String::new(), 0, false),
        };
        match poll {
            Poll::Failed => {
                self.tally.skipped();
                let state = match self.policy {
                    RestartPolicy::Never => ContainerState::Running,
                    _ => ContainerState::Waiting { reason: "ContainerCreating".to_owned() },
                };
                self.observe(
                    ContainerObservation {
                        name,
                        state,
                        container_id: Some(id),
                        restart_count: count,
                        ready: false,
                        kind: InitKind::Regular,
                        ever_started: true,
                    },
                );
            },
            Poll::Gone => {
                self.vanished = true;
                assert(was.at < self.specs.len());
                self.at = self.at + 1;
                assert(self@ =~= (RunView { vanished: true, at: was.at + 1, ..was }));
                self.advance();
            },
            Poll::Seen(s) => {
                let reached = if s.pod_ip.is_some() {
                    clone_opt(&s.pod_ip)
                } else {
                    clone_opt(&self.pod_ip)
                };
                self.note_ip(&s.pod_ip);
                if s.running {
                    if has_probes {
                        self.stage = RunStage::Probing { pod_ip: reached };
                    } else {
                        self.observe(
                            ContainerObservation::running(name.as_str(), id.as_str(), count),
                        );
                    }
                    return ;
                }
                let exit = Termination::from_exit_code(s.exit_code);
                if !self.policy.should_restart(exit) {
                    self.observe(
                        ContainerObservation::terminated(name.as_str(), id.as_str(), exit, count),
                    );
                    return ;
                }
                let (since, uptime) = kubelet.stamp_exit(&self.key, name.as_str(), now);
                match decide(count, since, uptime) {
                    BackoffDecision::Wait { remaining } => {
                        self.tally.within(remaining);
                        let secs = remaining.as_secs();
                        let left = decimal_i128(secs as i128);
                        let times = decimal_u64(count as u64);
                        let message = cat7(
                            "Back-off restarting failed container ",
                            name.as_str(),
                            " (",
                            left.as_str(),
                            "s remaining, ",
                            times.as_str(),
                            " prior restarts)",
                        );
                        self.tally.tell(EventReason::BackOff, message);
                        self.observe(
                            ContainerObservation::backing_off(
                                name.as_str(),
                                id.as_str(),
                                "CrashLoopBackOff",
                                count,
                            ),
                        );
                    },
                    BackoffDecision::Restart => {
                        self.stage = RunStage::Restarting(Cause::Exit(exit));
                    },
                }
            },
        }
    }

    /// Takes in what the probes of the container say: one reading of each that it has.
    pub fn probed(&mut self, kubelet: &mut Kubelet, readings: &ProbeReadings)
        requires
            old(self)@.well_formed(),
            old(self)@.stage is Probing,
            probes::read_from(old(self)@.record().probes, *readings),
        ensures
            final(self)@ == after_probes(old(self)@, *readings),
            final(self)@.well_formed(),
            final(kubelet)@ == (KubeletView {
                local: local_after_probes(old(self)@, old(kubelet)@.local, *readings),
                ..old(kubelet)@
            }),
    {
        let ghost was = self@;
        let name = self.specs[self.at].0.clone();
        let out = judge(readings, &mut self.tally.soonest);
        assert(self@ =~= (RunView {
            tally: TallyView {
                soonest: probes::soonest_with(was.tally.soonest, *readings),
                ..was.tally
            },
            ..was
        }));
        kubelet.note_gates(&self.key, name.as_str(), readings);
        let never = match self.policy {
            RestartPolicy::Never => true,
            _ => false,
        };
        if out.needs_restart && !never {
            self.stage = RunStage::Restarting(Cause::Probe { ready: out.ready });
        } else {
            let (id, count): (String, u32) = match &self.before[self.at] {
                Some(rec) => (rec.container_id.clone(), rec.restart_count),
                None => (String::new(), 0),
            };
            self.observe(
                ContainerObservation {
                    name,
                    state: ContainerState::Running,
                    container_id: Some(id),
                    restart_count: count,
                    ready: out.ready,
                    kind: InitKind::Regular,
                    ever_started: true,
                },
            );
        }
    }

    /// Takes in whether the container was started again, and what the runtime says of the new one.
    pub fn restarted(
        &mut self,
        kubelet: &mut Kubelet,
        started: Option<ContainerStatus>,
        now: Instant,
    )
        requires
            old(self)@.well_formed(),
            old(self)@.stage is Restarting,
        ensures
            final(self)@ == after_restart(old(self)@, started),
            final(self)@.well_formed(),
            final(kubelet)@ == (KubeletView {
                local: local_after_restart(old(self)@, old(kubelet)@.local, started, now),
                ..old(kubelet)@
            }),
    {
        let ghost was = self@;
        let name = self.specs[self.at].0.clone();
        let (id, count): (String, u32) = match &self.before[self.at] {
            Some(rec) => (rec.container_id.clone(), rec.restart_count),
            None => (String::new(), 0),
        };
        let cause = match &self.stage {
            RunStage::Restarting(c) => *c,
            _ => Cause::Exit(Termination::Unknown),
        };
        match started {
            Some(s) => {
                let n = one_more(count);
                let times = decimal_u64(n as u64);
                self.note_ip(&s.pod_ip);
                kubelet.note_restart(&self.key, name.as_str(), s.container_id.clone(), n, now);
                self.tally.changed();
                let ready = match cause {
                    Cause::Probe { .. } => {
                        let message = cat5(
                            "Container ",
                            name.as_str(),
                            " failed its liveness/startup probe and was restarted (restart #",
                            times.as_str(),
                            ")",
                        );
                        self.tally.tell(EventReason::Unhealthy, message);
                        false
                    },
                    Cause::Exit(t) => {
                        let code = decimal_i64(t.exit_code() as i64);
                        let message = cat7(
                            "Restarted container ",
                            name.as_str(),
                            " (exit ",
                            code.as_str(),
                            ", restart #",
                            times.as_str(),
                            ")",
                        );
                        self.tally.tell(EventReason::Started, message);
                        true
                    },
                };
                self.observe(
                    ContainerObservation {
                        name,
                        state: ContainerState::Running,
                        container_id: Some(s.container_id),
                        restart_count: n,
                        ready,
                        kind: InitKind::Regular,
                        ever_started: true,
                    },
                );
            },
            None => {
                self.tally.skipped();
                match cause {
                    Cause::Probe { ready } => {
                        self.observe(
                            ContainerObservation {
                                name,
                                state: ContainerState::Running,
                                container_id: Some(id),
                                restart_count: count,
                                ready,
                                kind: InitKind::Regular,
                                ever_started: true,
                            },
                        );
                    },
                    Cause::Exit(t) => {
                        self.observe(
                            ContainerObservation::terminated(name.as_str(), id.as_str(), t, count),
                        );
                    },
                }
            },
        }
    }
}

// ---- the end of a pass ---------------------------------------------------------------------

/// What is published of the init containers of a pod that is past them: each succeeded.
pub open spec fn init_done(
    local: Map<KeyView, PodView>,
    k: KeyView,
    init_specs: Seq<(Seq<char>, SpecView)>,
) -> Seq<StatusView> {
    init_specs.map_values(
        |e: (Seq<char>, SpecView)|
            StatusView {
                name: e.0,
                ready: false,
                state: StateView::Terminated(lifecycle::ended_as(Some(0i32))),
                container_id: match kubelet::init_record_of(local, k, e.0) {
                    Some(rec) => Some(rec.container_id),
                    None => None,
                },
                restart_count: match kubelet::init_record_of(local, k, e.0) {
                    Some(rec) => rec.restart_count,
                    None => 0,
                },
            },
    )
}

/// What is published of the init containers of a pod that is past them, in order.
pub fn init_statuses_terminated(
    kubelet: &Kubelet,
    key: &ResourceKey,
    init_specs: &[(String, ContainerSpec)],
) -> (r: Vec<ContainerStatusOut>)
    ensures
        lifecycle::status_views(r@) == init_done(
            kubelet@.local,
            key@,
            pod_spec::spec_views(init_specs@),
        ),
{
    let ghost want = init_done(kubelet@.local, key@, pod_spec::spec_views(init_specs@));
    let mut out: Vec<ContainerStatusOut> = Vec::new();
    let mut i: usize = 0;
    assert(lifecycle::status_views(out@) =~= want.take(0));
    while i < init_specs.len()
        invariant
            i <= init_specs@.len(),
            want == init_done(kubelet@.local, key@, pod_spec::spec_views(init_specs@)),
            lifecycle::status_views(out@) =~= want.take(i as int),
        decreases init_specs@.len() - i,
    {
        let name = init_specs[i].0.as_str();
        let (container_id, restart_count): (Option<String>, u32) = match kubelet.local_pod(key) {
            Some(p) => match p.init_containers.get(name) {
                Some(rec) => (Some(rec.container_id.clone()), rec.restart_count),
                None => (None, 0),
            },
            None => (None, 0),
        };
        let ghost was = out@;
        let s = ContainerStatusOut {
            name: name.to_owned(),
            ready: false,
            state: ContainerState::terminated(Termination::from_exit_code(Some(0))),
            container_id,
            restart_count,
        };
        out.push(s);
        assert(lifecycle::status_views(out@) =~= lifecycle::status_views(was).push(s@));
        assert(pod_spec::spec_views(init_specs@)[i as int].0 == name@);
        assert(s@ == want[i as int]);
        i += 1;
    }
    assert(want.take(i as int) =~= want);
    out
}

impl RunningPass {
    /// Ends the pass: what is published of the pod, if anything. A pod of which the runtime lost a
    /// container is forgotten instead, so that the next pass starts it anew. `now` is when the pod
    /// was started, where it was not told yet.
    pub fn finish(
        self,
        kubelet: &mut Kubelet,
        live: &Json,
        init_specs: &[(String, ContainerSpec)],
        now: &str,
    ) -> (r: (Option<Json>, Tally))
        requires
            self@.well_formed(),
            self@.stage is Over,
        ensures
            if self@.vanished {
                &&& r.0 is None
                &&& r.1@ == self@.tally.changed()
                &&& final(kubelet)@ == (KubeletView {
                    local: old(kubelet)@.local.remove(self@.key),
                    ..old(kubelet)@
                })
            } else {
                &&& r.0 matches Some(status) && status@ == pod_status::pod_status(
                    live@,
                    lifecycle::phase_of(self@.policy, self@.observations),
                    init_done(
                        old(kubelet)@.local,
                        self@.key,
                        pod_spec::spec_views(init_specs@),
                    ),
                    lifecycle::statuses_of(self@.observations),
                    self@.pod_ip,
                    true,
                    init_specs@.len() > 0,
                    now@,
                )
                &&& r.1@ == self@.tally
                &&& final(kubelet)@ == old(kubelet)@
            },
    {
        if self.vanished {
            let mut tally = self.tally;
            kubelet.forget(&self.key);
            tally.changed();
            return (None, tally);
        }
        let (phase, statuses) = reconcile_pod_phase(self.policy, self.observations.as_slice());
        let ip: Option<&str> = match &self.pod_ip {
            Some(s) => Some(s.as_str()),
            None => None,
        };
        let status = if init_specs.len() > 0 {
            let init_statuses = init_statuses_terminated(kubelet, &self.key, init_specs);
            build_pod_status_with_init(
                live,
                phase,
                init_statuses.as_slice(),
                statuses.as_slice(),
                ip,
                true,
                true,
                now,
            )
        } else {
            assert(init_done(
                kubelet@.local,
                self@.key,
                pod_spec::spec_views(init_specs@),
            ) =~= Seq::<StatusView>::empty());
            build_pod_status(live, phase, statuses.as_slice(), ip, now)
        };
        (Some(status), self.tally)
    }
}

// ---- laws ----------------------------------------------------------------------------------

proof fn to_next_keeps_what_was_seen(v: RunView)
    requires
        v.at >= 0,
    ensures
        v.observations.len() <= to_next(v).observations.len(),
        to_next(v).observations.take(v.observations.len() as int) == v.observations,
    decreases v.before.len() - v.at,
{
    if v.at < v.before.len() && v.before[v.at] is None {
        let w = RunView {
            observations: v.observations.push(lifecycle::waiting_view(v.name())),
            at: v.at + 1,
            ..v
        };
        to_next_keeps_what_was_seen(w);
        let n = v.observations.len() as int;
        assert(to_next(w).observations.take(n + 1).take(n) =~= to_next(w).observations.take(n));
        assert(w.observations.take(n) =~= v.observations);
    } else {
        assert(to_next(v).observations.take(v.observations.len() as int) =~= v.observations);
    }
}

/// Under `Never` no container is started again, neither because it ended nor because its probes
/// failed.
pub proof fn never_means_never(
    v: RunView,
    local: Map<KeyView, PodView>,
    poll: Poll,
    readings: ProbeReadings,
    now: Instant,
)
    requires
        v.well_formed(),
        v.policy is Never,
        v.stage is Polling || v.stage is Probing,
    ensures
        !(after_poll(v, local, poll, now).stage is Restarting),
        !(after_probes(v, readings).stage is Restarting),
{
    assert forall|w: RunView, o: ObsView|
        w.before == v.before && w.specs == v.specs && w.at == v.at && w.vanished == v.vanished
            && w.observations == v.observations && o.name == v.name() implies !((
    #[trigger] observed(w, o)).stage is Restarting) by {
        to_next_keeps_form(RunView { observations: w.observations.push(o), at: w.at + 1, ..w });
    }
    to_next_keeps_form(RunView { vanished: true, at: v.at + 1, ..v });
}

/// A container that is held back is not started again in this pass, and another pass is asked for
/// no later than when its hold ends.
pub proof fn a_held_container_waits(
    v: RunView,
    local: Map<KeyView, PodView>,
    s: ContainerStatus,
    now: Instant,
)
    requires
        v.well_formed(),
        v.stage is Polling,
        !s.running,
        lifecycle::restarts(v.policy, lifecycle::ended_as(s.exit_code)),
        hold(v, local, now) is Wait,
    ensures
        ({
            let w = after_poll(v, local, Poll::Seen(s), now);
            let left = hold(v, local, now)->remaining;
            &&& !(w.stage is Restarting)
            &&& w.tally.soonest matches Some(d) && d <= left@
        }),
{
    let w = RunView {
        pod_ip: first_ip(v.pod_ip, lifecycle::opt_string(s.pod_ip)),
        tally: v.tally.within((hold(v, local, now)->remaining)@).told(
            EventReason::BackOff,
            back_off_text(v.name(), (hold(v, local, now)->remaining)@, v.record().restart_count),
        ),
        ..v
    };
    let o = lifecycle::started_view(
        v.name(),
        v.record().container_id@,
        v.record().restart_count,
        StateView::Waiting { reason: "CrashLoopBackOff"@ },
        false,
    );
    to_next_keeps_form(RunView { observations: w.observations.push(o), at: w.at + 1, ..w });
}

/// A container that is started again is given the mounts that it was started with, which are
/// remembered for the next time, and the names that a first start would be given now.
pub proof fn a_restart_brings_mounts_and_names(
    v: RunView,
    local: Map<KeyView, PodView>,
    pod: Doc,
    own: Seq<(KeyView, Doc)>,
    all: Seq<(KeyView, Doc)>,
    s: ContainerStatus,
    now: Instant,
)
    requires
        v.well_formed(),
        v.stage is Restarting,
        kubelet::record_of(local, v.key, v.name()) is Some,
    ensures
        ({
            let mounts = kubelet::record_of(local, v.key, v.name()).unwrap().mounts;
            let spec = restarts_as(v, local, pod, own, all);
            let namespace = resource::namespace_of(v.key);
            &&& spec.mounts == mounts
            &&& spec.network_aliases == services::alias_names(own, namespace, pod)
            &&& spec.host_add == services::host_names(all, namespace)
            &&& mounts_of(local_after_restart(v, local, Some(s), now), v.key, v.name()) == mounts
        }),
{
}

/// Each time a container is started again counts once, and begins its probes anew.
pub proof fn a_restart_counts_once(
    v: RunView,
    local: Map<KeyView, PodView>,
    s: ContainerStatus,
    now: Instant,
)
    requires
        v.well_formed(),
        v.stage is Restarting,
        kubelet::record_of(local, v.key, v.name()) is Some,
        kubelet::record_of(local, v.key, v.name()).unwrap().restart_count
            == v.record().restart_count,
        v.record().restart_count < u32::MAX,
    ensures
        ({
            let was = kubelet::record_of(local, v.key, v.name()).unwrap();
            let new = kubelet::record_of(
                local_after_restart(v, local, Some(s), now),
                v.key,
                v.name(),
            );
            &&& new is Some
            &&& new.unwrap().restart_count == was.restart_count + 1
            &&& new.unwrap().probes == probes::reset_at(was.probes, now)
            &&& new.unwrap().terminated_at is None
        }),
{
}

/// A container that was started again runs, under the id that the runtime gave it. It is told to be
/// ready where it had ended, and not where its probes asked for it.
pub proof fn what_is_told_of_a_restart(v: RunView, s: ContainerStatus)
    requires
        v.well_formed(),
        v.stage is Restarting,
        !v.vanished,
    ensures
        ({
            let o = after_restart(v, Some(s)).observations[v.at];
            &&& o.state is Running
            &&& o.container_id == Some(s.container_id@)
            &&& o.ready == v.stage->Restarting_0 is Exit
        }),
{
    let cause = v.stage->Restarting_0;
    let n = report::more_of(v.record().restart_count);
    let o = lifecycle::started_view(
        v.name(),
        s.container_id@,
        n,
        StateView::Running,
        cause is Exit,
    );
    let w = RunView {
        pod_ip: first_ip(v.pod_ip, lifecycle::opt_string(s.pod_ip)),
        tally: v.tally.changed().told(
            match cause {
                Cause::Probe { .. } => EventReason::Unhealthy,
                Cause::Exit(_) => EventReason::Started,
            },
            restart_text(v.name(), cause, n),
        ),
        ..v
    };
    what_was_seen_stays(w, o);
}

/// A container that the runtime did not answer for is taken neither to have ended nor never to have
/// been started: it keeps its id and its count, nothing that is remembered of it changes, and a pod
/// all of whose containers were started stays running, under every policy.
pub proof fn no_answer_is_no_end(
    v: RunView,
    local: Map<KeyView, PodView>,
    now: Instant,
    end: Seq<ObsView>,
)
    requires
        v.well_formed(),
        v.stage is Polling,
        !v.vanished,
        end.len() > v.at,
        end[v.at] == after_poll(v, local, Poll::Failed, now).observations[v.at],
        forall|i: int| 0 <= i < end.len() ==> !lifecycle::never_started(#[trigger] end[i]),
    ensures
        ({
            let o = after_poll(v, local, Poll::Failed, now).observations[v.at];
            &&& o.name == v.name()
            &&& o.container_id == Some(v.record().container_id@)
            &&& o.restart_count == v.record().restart_count
            &&& o.ever_started
            &&& !o.ready
            &&& !(o.state is Terminated)
        }),
        local_after_poll(v, local, Poll::Failed, now) == local,
        lifecycle::phase_of(v.policy, end) is Running,
{
    let o = unanswered(v.policy, v.name(), v.record());
    let w = RunView {
        tally: v.tally.skipped(),
        observations: v.observations.push(o),
        at: v.at + 1,
        ..v
    };
    to_next_keeps_what_was_seen(w);
    let all = to_next(w).observations;
    assert(all.take(v.at + 1)[v.at] == w.observations[v.at]);
    assert(end[v.at] == o);
}

/// What was seen of a container stays as it was seen until the end of the pass.
pub proof fn what_was_seen_stays(v: RunView, o: ObsView)
    requires
        v.well_formed(),
        !(v.stage is Over),
        !v.vanished,
    ensures
        observed(v, o).observations[v.at] == o,
        forall|i: int|
            0 <= i < v.at ==> #[trigger] observed(v, o).observations[i] == v.observations[i],
{
    let w = RunView { observations: v.observations.push(o), at: v.at + 1, ..v };
    to_next_keeps_what_was_seen(w);
    let all = observed(v, o).observations;
    assert forall|i: int| 0 <= i <= v.at implies #[trigger] all[i] == w.observations[i] by {
        assert(all.take(v.at + 1)[i] == w.observations[i]);
    }
    assert forall|i: int| 0 <= i < v.at implies #[trigger] all[i] == v.observations[i] by {
        assert(w.observations[i] == v.observations[i]);
    }
    assert(w.observations[v.at] == o);
}

/// What is published at the end of a pass in which no container was lost names every container of
/// the manifest, in order.
pub proof fn every_container_is_told(v: RunView)
    requires
        v.well_formed(),
        v.stage is Over,
        !v.vanished,
    ensures
        v.observations.len() == v.specs.len(),
        forall|i: int|
            0 <= i < v.specs.len() ==> (#[trigger] v.observations[i]).name == v.specs[i].0,
{
}

proof fn told_of(v: RunView, o: ObsView)
    requires
        v.well_formed(),
        !(v.stage is Over),
        !v.vanished,
        o.name == v.name(),
    ensures
        observed(v, o).well_formed(),
        observed(v, o).observations[v.at] == o,
        observed(v, o).at > v.at,
        observed(v, o).pod_ip == v.pod_ip,
        observed(v, o).tally == v.tally,
        observed(v, o).vanished == v.vanished,
        observed(v, o).policy == v.policy,
        observed(v, o).specs == v.specs,
        observed(v, o).before == v.before,
        observed(v, o).key == v.key,
        observed(v, o).stage is Over || observed(v, o).stage is Polling,
{
    what_was_seen_stays(v, o);
    let w = RunView { observations: v.observations.push(o), at: v.at + 1, ..v };
    to_next_keeps_form(w);
    assert(to_next(w).observations[v.at] == o);
}

/// A container that ended is started over at once where its policy restarts it (`Always`, or
/// `OnFailure` and it did not exit with zero) and no wait is owed: the pass stays at it, tells
/// nothing of it yet and asks for the restart. So, with what is told of one that is held back, it is
/// never merely told to have ended.
pub proof fn an_ended_container_is_started_over(
    v: RunView,
    local: Map<KeyView, PodView>,
    s: ContainerStatus,
    now: Instant,
)
    requires
        v.well_formed(),
        v.stage is Polling,
        !s.running,
        v.policy is Always || (v.policy is OnFailure && s.exit_code != Some(0i32)),
        backoff::decided(
            v.record().restart_count as nat,
            kubelet::since_exit(kubelet::record_of(local, v.key, v.name()), now),
            kubelet::uptime(kubelet::record_of(local, v.key, v.name()), now),
        ) is Restart,
    ensures
        ({
            let w = after_poll(v, local, Poll::Seen(s), now);
            &&& w.stage == StageView::Restarting(
                Cause::Exit(
                    match s.exit_code {
                        Some(c) => Termination::Observed(ExitDisposition::Code(c)),
                        None => Termination::Unknown,
                    },
                ),
            )
            &&& w.at == v.at
            &&& w.observations == v.observations
            &&& w.tally == v.tally
            &&& w.vanished == v.vanished
            &&& asks(w) == (CallView::Restart { old_id: v.record().container_id@ })
        }),
{
}

/// A container that ended and is to be started over, but is owed a wait, is told to wait for that
/// reason, under its id and its count, and the wait is told of. Another pass is asked for by its end.
pub proof fn a_held_container_is_told_so(
    v: RunView,
    local: Map<KeyView, PodView>,
    s: ContainerStatus,
    now: Instant,
)
    requires
        v.well_formed(),
        v.stage is Polling,
        !v.vanished,
        !s.running,
        v.policy is Always || (v.policy is OnFailure && s.exit_code != Some(0i32)),
        backoff::decided(
            v.record().restart_count as nat,
            kubelet::since_exit(kubelet::record_of(local, v.key, v.name()), now),
            kubelet::uptime(kubelet::record_of(local, v.key, v.name()), now),
        ) is Wait,
    ensures
        ({
            let w = after_poll(v, local, Poll::Seen(s), now);
            let left = backoff::decided(
                v.record().restart_count as nat,
                kubelet::since_exit(kubelet::record_of(local, v.key, v.name()), now),
                kubelet::uptime(kubelet::record_of(local, v.key, v.name()), now),
            )->remaining;
            let o = w.observations[v.at];
            &&& !(w.stage is Restarting)
            &&& w.at > v.at
            &&& o.name == v.specs[v.at].0
            &&& o.state == (StateView::Waiting { reason: "CrashLoopBackOff"@ })
            &&& o.container_id == Some(v.record().container_id@)
            &&& o.restart_count == v.record().restart_count
            &&& !o.ready
            &&& o.ever_started
            &&& w.tally.soonest == match v.tally.soonest {
                Some(d) => if d <= left@ {
                    Some(d)
                } else {
                    Some(left@)
                },
                None => Some(left@),
            }
            &&& w.tally.events.len() == v.tally.events.len() + 1
            &&& w.tally.events.last().reason is BackOff
            &&& w.tally.report == v.tally.report
        }),
{
    let left = hold(v, local, now)->remaining;
    let w = RunView {
        pod_ip: first_ip(v.pod_ip, lifecycle::opt_string(s.pod_ip)),
        tally: v.tally.within(left@).told(
            EventReason::BackOff,
            back_off_text(v.name(), left@, v.record().restart_count),
        ),
        ..v
    };
    let o = lifecycle::started_view(
        v.name(),
        v.record().container_id@,
        v.record().restart_count,
        StateView::Waiting { reason: "CrashLoopBackOff"@ },
        false,
    );
    told_of(w, o);
}

/// A container that ended for good (under `Never`, or under `OnFailure` with zero) is told to have
/// ended as it did, and nothing else is done about it.
pub proof fn an_end_for_good_is_told(
    v: RunView,
    local: Map<KeyView, PodView>,
    s: ContainerStatus,
    now: Instant,
)
    requires
        v.well_formed(),
        v.stage is Polling,
        !v.vanished,
        !s.running,
        v.policy is Never || (v.policy is OnFailure && s.exit_code == Some(0i32)),
    ensures
        ({
            let w = after_poll(v, local, Poll::Seen(s), now);
            let o = w.observations[v.at];
            &&& !(w.stage is Restarting)
            &&& w.at > v.at
            &&& o.name == v.specs[v.at].0
            &&& o.state == StateView::Terminated(
                match s.exit_code {
                    Some(c) => Termination::Observed(ExitDisposition::Code(c)),
                    None => Termination::Unknown,
                },
            )
            &&& o.container_id == Some(v.record().container_id@)
            &&& o.restart_count == v.record().restart_count
            &&& !o.ready
            &&& w.tally == v.tally
        }),
        local_after_poll(v, local, Poll::Seen(s), now) == local,
{
    let w = RunView { pod_ip: first_ip(v.pod_ip, lifecycle::opt_string(s.pod_ip)), ..v };
    let o = lifecycle::started_view(
        v.name(),
        v.record().container_id@,
        v.record().restart_count,
        StateView::Terminated(lifecycle::ended_as(s.exit_code)),
        false,
    );
    told_of(w, o);
}

/// A container that is up and has no probe is told to be up and ready. One that has a probe is told
/// of only once it was probed: the pass stays at it and asks for a reading of each probe that it has.
pub proof fn what_is_up_is_told_or_probed(
    v: RunView,
    local: Map<KeyView, PodView>,
    s: ContainerStatus,
    now: Instant,
)
    requires
        v.well_formed(),
        v.stage is Polling,
        !v.vanished,
        s.running,
    ensures
        ({
            let w = after_poll(v, local, Poll::Seen(s), now);
            let kinds = v.record().probes;
            if kinds.startup || kinds.readiness || kinds.liveness {
                &&& w.at == v.at
                &&& w.observations == v.observations
                &&& asks(w) matches CallView::Probe { name, id, pod_ip, kinds: asked }
                &&& name == v.specs[v.at].0
                &&& id == v.record().container_id@
                &&& asked == kinds
                &&& s.pod_ip matches Some(ip) ==> pod_ip == Some(ip@)
                &&& s.pod_ip is None ==> pod_ip == v.pod_ip
            } else {
                let o = w.observations[v.at];
                &&& w.at > v.at
                &&& o.name == v.specs[v.at].0
                &&& o.state is Running
                &&& o.ready
                &&& o.container_id == Some(v.record().container_id@)
                &&& o.restart_count == v.record().restart_count
            }
        }),
        after_poll(v, local, Poll::Seen(s), now).tally == v.tally,
        local_after_poll(v, local, Poll::Seen(s), now) == local,
{
    let w = RunView { pod_ip: first_ip(v.pod_ip, lifecycle::opt_string(s.pod_ip)), ..v };
    let o = lifecycle::started_view(
        v.name(),
        v.record().container_id@,
        v.record().restart_count,
        StateView::Running,
        true,
    );
    told_of(w, o);
}

/// A container that the runtime lost is not told of: the whole pod counts as lost, and stays so,
/// whatever is seen of the others.
pub proof fn the_lost_are_not_forgotten(
    v: RunView,
    local: Map<KeyView, PodView>,
    poll: Poll,
    readings: ProbeReadings,
    started: Option<ContainerStatus>,
    now: Instant,
)
    requires
        v.well_formed(),
        !(v.stage is Over),
    ensures
        after_poll(v, local, Poll::Gone, now).vanished,
        local_after_poll(v, local, Poll::Gone, now) == local,
        !(poll is Gone) ==> after_poll(v, local, poll, now).vanished == v.vanished,
        after_probes(v, readings).vanished == v.vanished,
        after_restart(v, started).vanished == v.vanished,
{
    to_next_keeps_form(RunView { vanished: true, at: v.at + 1, ..v });
    assert forall|w: RunView, o: ObsView|
        w.before == v.before && w.specs == v.specs && w.at == v.at && w.vanished == v.vanished
            && w.observations == v.observations && o.name == v.name() implies (
    #[trigger] observed(w, o)).vanished == v.vanished by {
        to_next_keeps_form(RunView { observations: w.observations.push(o), at: w.at + 1, ..w });
    }
}

/// What the probes of a container that is up say is what is done: it is restarted where they ask for
/// it, but under `Never`, and is told to be up otherwise, and ready where they say so.
pub proof fn what_the_probes_say_is_done(v: RunView, readings: ProbeReadings)
    requires
        v.well_formed(),
        v.stage is Probing,
        !v.vanished,
    ensures
        ({
            let w = after_probes(v, readings);
            let out = probes::outcome_of(readings);
            if out.needs_restart && (v.policy is Always || v.policy is OnFailure) {
                &&& w.stage == StageView::Restarting(Cause::Probe { ready: out.ready })
                &&& w.at == v.at
                &&& w.observations == v.observations
                &&& asks(w) == (CallView::Restart { old_id: v.record().container_id@ })
            } else {
                let o = w.observations[v.at];
                &&& !(w.stage is Restarting)
                &&& w.at > v.at
                &&& o.name == v.specs[v.at].0
                &&& o.state is Running
                &&& o.ready == out.ready
                &&& o.container_id == Some(v.record().container_id@)
                &&& o.restart_count == v.record().restart_count
            }
        }),
        after_probes(v, readings).tally.events == v.tally.events,
        after_probes(v, readings).tally.report == v.tally.report,
        after_probes(v, readings).tally.soonest == probes::soonest_with(
            v.tally.soonest,
            readings,
        ),
{
    let w = RunView {
        tally: TallyView {
            soonest: probes::soonest_with(v.tally.soonest, readings),
            ..v.tally
        },
        ..v
    };
    let o = lifecycle::started_view(
        v.name(),
        v.record().container_id@,
        v.record().restart_count,
        StateView::Running,
        probes::outcome_of(readings).ready,
    );
    told_of(w, o);
}

/// A restart is counted, told of and shown: one more change, one more event, and one more restart of
/// this container, under its new id.
pub proof fn a_restart_is_told_and_counted(v: RunView, s: ContainerStatus)
    requires
        v.well_formed(),
        v.stage is Restarting,
        !v.vanished,
        v.record().restart_count < u32::MAX,
        v.tally.report.objects_changed < usize::MAX,
    ensures
        ({
            let w = after_restart(v, Some(s));
            let o = w.observations[v.at];
            &&& o.name == v.specs[v.at].0
            &&& o.restart_count == v.record().restart_count + 1
            &&& w.tally.report.objects_changed == v.tally.report.objects_changed + 1
            &&& w.tally.report.objects_skipped == v.tally.report.objects_skipped
            &&& w.tally.soonest == v.tally.soonest
            &&& w.tally.events.len() == v.tally.events.len() + 1
            &&& w.tally.events.drop_last() == v.tally.events
            &&& w.tally.events.last().reason == match v.stage->Restarting_0 {
                Cause::Probe { .. } => EventReason::Unhealthy,
                Cause::Exit(_) => EventReason::Started,
            }
        }),
{
    let cause = v.stage->Restarting_0;
    let n = report::more_of(v.record().restart_count);
    let w = RunView {
        pod_ip: first_ip(v.pod_ip, lifecycle::opt_string(s.pod_ip)),
        tally: v.tally.changed().told(
            match cause {
                Cause::Probe { .. } => EventReason::Unhealthy,
                Cause::Exit(_) => EventReason::Started,
            },
            restart_text(v.name(), cause, n),
        ),
        ..v
    };
    let o = lifecycle::started_view(
        v.name(),
        s.container_id@,
        n,
        StateView::Running,
        cause is Exit,
    );
    told_of(w, o);
    assert(w.tally.events.drop_last() =~= v.tally.events);
}

/// A container that could not be started over is told as it was seen before, with its old id and its
/// old count, nothing of it is changed, and it is passed over.
pub proof fn a_failed_restart_changes_nothing(
    v: RunView,
    local: Map<KeyView, PodView>,
    now: Instant,
)
    requires
        v.well_formed(),
        v.stage is Restarting,
        !v.vanished,
        v.tally.report.objects_skipped < usize::MAX,
    ensures
        ({
            let w = after_restart(v, None);
            let o = w.observations[v.at];
            &&& o.name == v.specs[v.at].0
            &&& o.container_id == Some(v.record().container_id@)
            &&& o.restart_count == v.record().restart_count
            &&& match v.stage->Restarting_0 {
                Cause::Probe { ready } => o.state is Running && o.ready == ready,
                Cause::Exit(t) => o.state == StateView::Terminated(t) && !o.ready,
            }
            &&& w.tally.report.objects_skipped == v.tally.report.objects_skipped + 1
            &&& w.tally.report.objects_changed == v.tally.report.objects_changed
            &&& w.tally.events == v.tally.events
            &&& w.tally.soonest == v.tally.soonest
        }),
        local_after_restart(v, local, None, now) == local,
{
    let w = RunView { tally: v.tally.skipped(), ..v };
    let rec = v.record();
    match v.stage->Restarting_0 {
        Cause::Probe { ready } => told_of(
            w,
            lifecycle::started_view(
                v.name(),
                rec.container_id@,
                rec.restart_count,
                StateView::Running,
                ready,
            ),
        ),
        Cause::Exit(t) => told_of(
            w,
            lifecycle::started_view(
                v.name(),
                rec.container_id@,
                rec.restart_count,
                StateView::Terminated(t),
                false,
            ),
        ),
    }
}

/// No step of a pass touches what is remembered of another container, of another pod, or of the init
/// containers.
pub proof fn others_are_left_alone(
    v: RunView,
    local: Map<KeyView, PodView>,
    poll: Poll,
    readings: ProbeReadings,
    started: Option<ContainerStatus>,
    now: Instant,
    k: KeyView,
    name: Seq<char>,
)
    ensures
        ({
            let a = local_after_poll(v, local, poll, now);
            let b = local_after_probes(v, local, readings);
            let c = local_after_restart(v, local, started, now);
            &&& k != v.key || name != v.name() ==> {
                &&& kubelet::record_of(a, k, name) == kubelet::record_of(local, k, name)
                &&& kubelet::record_of(b, k, name) == kubelet::record_of(local, k, name)
                &&& kubelet::record_of(c, k, name) == kubelet::record_of(local, k, name)
            }
            &&& kubelet::init_record_of(a, k, name) == kubelet::init_record_of(local, k, name)
            &&& kubelet::init_record_of(b, k, name) == kubelet::init_record_of(local, k, name)
            &&& kubelet::init_record_of(c, k, name) == kubelet::init_record_of(local, k, name)
            &&& a.dom() == local.dom()
            &&& b.dom() == local.dom()
            &&& c.dom() == local.dom()
        }),
{
    assert(local_after_poll(v, local, poll, now).dom() =~= local.dom());
    assert(local_after_probes(v, local, readings).dom() =~= local.dom());
    assert(local_after_restart(v, local, started, now).dom() =~= local.dom());
}

/// The first sight of an end that is started over is kept, and the rest of the record with it: what
/// is owed is counted from then, however often the end is seen.
pub proof fn an_end_is_dated_by_its_first_sight(
    v: RunView,
    local: Map<KeyView, PodView>,
    s: ContainerStatus,
    now: Instant,
)
    requires
        !s.running,
        v.policy is Always || (v.policy is OnFailure && s.exit_code != Some(0i32)),
        kubelet::record_of(local, v.key, v.name()) is Some,
    ensures
        ({
            let was = kubelet::record_of(local, v.key, v.name()).unwrap();
            let new = kubelet::record_of(
                local_after_poll(v, local, Poll::Seen(s), now),
                v.key,
                v.name(),
            );
            &&& new matches Some(rec)
            &&& rec.terminated_at == if was.terminated_at is Some {
                was.terminated_at
            } else {
                Some(now)
            }
            &&& rec.container_id == was.container_id
            &&& rec.restart_count == was.restart_count
            &&& rec.started_at == was.started_at
            &&& rec.probes == was.probes
            &&& rec.mounts == was.mounts
        }),
{
}

/// What the probes of a container said is remembered of it, and nothing else of it changes.
pub proof fn what_the_probes_said_is_remembered(
    v: RunView,
    local: Map<KeyView, PodView>,
    readings: ProbeReadings,
)
    requires
        kubelet::record_of(local, v.key, v.name()) is Some,
    ensures
        ({
            let was = kubelet::record_of(local, v.key, v.name()).unwrap();
            let new = kubelet::record_of(
                local_after_probes(v, local, readings),
                v.key,
                v.name(),
            );
            &&& new matches Some(rec)
            &&& rec.probes == probes::all_gated(was.probes, readings)
            &&& rec.container_id == was.container_id
            &&& rec.restart_count == was.restart_count
            &&& rec.started_at == was.started_at
            &&& rec.terminated_at == was.terminated_at
            &&& rec.mounts == was.mounts
        }),
{
}

/// A restart is remembered under the new id, from now on.
pub proof fn a_restart_is_remembered(
    v: RunView,
    local: Map<KeyView, PodView>,
    s: ContainerStatus,
    now: Instant,
)
    requires
        kubelet::record_of(local, v.key, v.name()) is Some,
    ensures
        ({
            let new = kubelet::record_of(
                local_after_restart(v, local, Some(s), now),
                v.key,
                v.name(),
            );
            &&& new matches Some(rec)
            &&& rec.container_id == s.container_id@
            &&& rec.started_at == Some(now)
            &&& rec.terminated_at is None
        }),
{
}

/// The first address that is seen is the address of the pod, and stays it.
pub proof fn the_first_address_stays(
    v: RunView,
    local: Map<KeyView, PodView>,
    s: ContainerStatus,
    now: Instant,
)
    requires
        v.well_formed(),
        !(v.stage is Over),
        !v.vanished,
    ensures
        ({
            let ip = if v.pod_ip is Some {
                v.pod_ip
            } else {
                match s.pod_ip {
                    Some(t) => Some(t@),
                    None => None,
                }
            };
            &&& v.stage is Polling ==> after_poll(v, local, Poll::Seen(s), now).pod_ip == ip
            &&& v.stage is Restarting ==> after_restart(v, Some(s)).pod_ip == ip
        }),
{
    assert forall|w: RunView, o: ObsView|
        w.before == v.before && w.specs == v.specs && w.at == v.at && w.vanished == v.vanished
            && w.observations == v.observations && o.name == v.name() implies (
    #[trigger] observed(w, o)).pod_ip == w.pod_ip by {
        to_next_keeps_form(RunView { observations: w.observations.push(o), at: w.at + 1, ..w });
    }
}

proof fn to_next_goes_to(v: RunView)
    requires
        v.before.len() == v.specs.len(),
        0 <= v.at <= v.before.len(),
        v.observations.len() == v.at,
    ensures
        ({
            let w = to_next(v);
            &&& v.at <= w.at <= v.before.len()
            &&& w.observations.len() == w.at
            &&& forall|i: int| v.at <= i < w.at ==> v.before[i] is None
            &&& forall|i: int|
                v.at <= i < w.at ==> (#[trigger] w.observations[i]) == lifecycle::waiting_view(
                    v.specs[i].0,
                )
            &&& w.at < v.before.len() ==> v.before[w.at] is Some && w.stage is Polling
            &&& w.at == v.before.len() ==> w.stage is Over
            &&& forall|i: int| 0 <= i < v.at ==> w.observations[i] == v.observations[i]
            &&& w.specs == v.specs
            &&& w.before == v.before
        }),
    decreases v.before.len() - v.at,
{
    if v.at < v.before.len() && v.before[v.at] is None {
        let n = RunView {
            observations: v.observations.push(lifecycle::waiting_view(v.name())),
            at: v.at + 1,
            ..v
        };
        to_next_goes_to(n);
        assert(n.observations[v.at] == lifecycle::waiting_view(v.name()));
        assert(to_next(v).observations[v.at] == n.observations[v.at]);
        assert forall|i: int| v.at <= i < to_next(v).at implies (
        #[trigger] to_next(v).observations[i]) == lifecycle::waiting_view(v.specs[i].0) by {
            if i == v.at {
                assert(to_next(n).observations[i] == n.observations[i]);
            }
        }
        assert forall|i: int| 0 <= i < v.at implies to_next(v).observations[i]
            == v.observations[i] by {
            assert(n.observations[i] == v.observations[i]);
        }
    }
}

/// Once a container was told of, the pass goes to the next one that was started. Those between, which
/// were not, are told to wait to be; no container that was started is passed over, and the pass ends
/// exactly where none is left.
pub proof fn no_started_container_is_passed_over(v: RunView, o: ObsView, i: int)
    requires
        v.well_formed(),
        !(v.stage is Over),
        !v.vanished,
    ensures
        ({
            let w = observed(v, o);
            &&& v.at < w.at <= v.specs.len()
            &&& v.at < i < w.at ==> {
                &&& v.before[i] is None
                &&& w.observations[i].name == v.specs[i].0
                &&& w.observations[i].state is Waiting
                &&& !w.observations[i].ever_started
                &&& !w.observations[i].ready
                &&& w.observations[i].container_id is None
                &&& w.observations[i].restart_count == 0
            }
            &&& w.at < v.specs.len() ==> v.before[w.at] is Some && asks(w) == (CallView::Poll {
                id: v.before[w.at].unwrap().container_id@,
            })
            &&& w.at == v.specs.len() ==> asks(w) is Finish
        }),
{
    let n = RunView { observations: v.observations.push(o), at: v.at + 1, ..v };
    to_next_goes_to(n);
    let w = observed(v, o);
    if v.at < i < w.at {
        assert(w.observations[i] == lifecycle::waiting_view(v.specs[i].0));
    }
}

/// A pass begins at the first container that was started, with nothing seen but that those before it
/// wait to be.
pub proof fn a_pass_begins_at_the_first_started(
    p: RunningPass,
    local: Map<KeyView, PodView>,
    k: KeyView,
    specs: Seq<(Seq<char>, SpecView)>,
    policy: RestartPolicy,
    t: TallyView,
    i: int,
)
    requires
        begun(p, local, k, specs, policy, t),
        0 <= i < specs.len(),
    ensures
        p@.policy == policy,
        p@.key == k,
        p@.specs == specs,
        p@.tally == t,
        p@.pod_ip is None,
        !p@.vanished,
        i < p@.at ==> kubelet::record_of(local, k, specs[i].0) is None,
        i == p@.at ==> match kubelet::record_of(local, k, specs[i].0) {
            Some(rec) => asks(p@) == (CallView::Poll { id: rec.container_id }) && p@.record().restart_count
                == rec.restart_count && p@.record().probes == probes::kinds_of(rec.probes),
            None => false,
        },
{
    let v = RunView {
        key: k,
        specs,
        before: p.before@,
        policy,
        at: 0,
        stage: StageView::Polling,
        observations: Seq::empty(),
        pod_ip: None,
        vanished: false,
        tally: t,
    };
    to_next_goes_to(v);
    to_next_keeps_form(v);
    assert(remembered(local, k, specs[i].0, p.before@[i]));
}

/// What is started over is what the manifest says, but for its mounts and its names.
pub proof fn what_is_started_over_is_the_same(
    v: RunView,
    local: Map<KeyView, PodView>,
    pod: Doc,
    own: Seq<(KeyView, Doc)>,
    all: Seq<(KeyView, Doc)>,
)
    ensures
        ({
            let spec = restarts_as(v, local, pod, own, all);
            let first = v.specs[v.at].1;
            &&& spec.name == first.name
            &&& spec.image == first.image
            &&& spec.env == first.env
            &&& spec.command == first.command
            &&& spec.pull_policy == first.pull_policy
            &&& spec.security_context == first.security_context
            &&& spec.resources == first.resources
            &&& spec.init_kind == first.init_kind
            &&& spec.pod == first.pod
        }),
{
}

/// Once a pod is past its init containers each is published to have exited with zero, under the id
/// and the count that are remembered of it.
pub proof fn past_init_all_are_done(
    local: Map<KeyView, PodView>,
    k: KeyView,
    init_specs: Seq<(Seq<char>, SpecView)>,
    i: int,
)
    requires
        0 <= i < init_specs.len(),
    ensures
        ({
            let all = init_done(local, k, init_specs);
            &&& all.len() == init_specs.len()
            &&& all[i].name == init_specs[i].0
            &&& all[i].state == StateView::Terminated(
                Termination::Observed(ExitDisposition::Code(0)),
            )
            &&& !all[i].ready
            &&& match kubelet::init_record_of(local, k, init_specs[i].0) {
                Some(rec) => all[i].container_id == Some(rec.container_id) && all[i].restart_count
                    == rec.restart_count,
                None => all[i].container_id is None && all[i].restart_count == 0,
            }
        }),
{
}

/// A pass is told whole, each part from its own place.
pub proof fn a_pass_is_told_whole(p: RunningPass)
    ensures
        p@.key == p.key@,
        p@.specs == pod_spec::spec_views(p.specs@),
        p@.before == p.before@,
        p@.policy == p.policy,
        p@.at == p.at,
        p@.observations == lifecycle::obs_views(p.observations@),
        p.pod_ip matches Some(ip) ==> p@.pod_ip == Some(ip@),
        p.pod_ip is None ==> p@.pod_ip is None,
        p@.vanished == p.vanished,
        p@.tally == p.tally@,
        p.stage is Polling <==> p@.stage is Polling,
        p.stage is Over <==> p@.stage is Over,
        p.stage matches RunStage::Restarting(c) ==> p@.stage == StageView::Restarting(c),
        p.stage is Probing <==> p@.stage is Probing,
{
}

/// What is asked for is told whole.
pub proof fn a_call_is_told_whole(c: RunningCall)
    ensures
        c matches RunningCall::Poll { id } ==> c@ == (CallView::Poll { id: id@ }),
        c matches RunningCall::Restart { old_id } ==> c@ == (CallView::Restart { old_id: old_id@ }),
        c is Finish <==> c@ is Finish,
        c matches RunningCall::Probe { name, id, kinds, .. } ==> (c@ matches CallView::Probe {
            name: n,
            id: i,
            kinds: k,
            ..
        } && n == name@ && i == id@ && k == kinds),
{
}

/// What each stage of a pass asks for: what the runtime says of the container, what its probes say, or
/// that it is started over, each of the container at hand; nothing once it is over.
pub proof fn what_each_stage_asks(v: RunView)
    ensures
        v.stage is Polling ==> asks(v) == (CallView::Poll {
            id: v.before[v.at].unwrap().container_id@,
        }),
        v.stage matches StageView::Probing { pod_ip } ==> asks(v) == (CallView::Probe {
            name: v.specs[v.at].0,
            id: v.before[v.at].unwrap().container_id@,
            pod_ip,
            kinds: v.before[v.at].unwrap().probes,
        }),
        v.stage is Restarting ==> asks(v) == (CallView::Restart {
            old_id: v.before[v.at].unwrap().container_id@,
        }),
        v.stage is Over ==> asks(v) is Finish,
{
}

/// What is told of a restart names the container, why it was and the how-manieth it is; what is told of
/// a container that is held back names it, how long that lasts and how often it was restarted.
pub proof fn what_is_told_in_words(name: Seq<char>, t: Termination, ready: bool, n: u32, nanos: nat)
    ensures
        restart_text(name, Cause::Probe { ready }, n) == "Container "@ + name
            + " failed its liveness/startup probe and was restarted (restart #"@ + number::decimal(
            n as int,
        ) + ")"@,
        restart_text(name, Cause::Exit(t), n) == "Restarted container "@ + name + " (exit "@
            + number::decimal(lifecycle::published_code(t)) + ", restart #"@ + number::decimal(
            n as int,
        ) + ")"@,
        back_off_text(name, nanos, n) == "Back-off restarting failed container "@ + name + " ("@
            + number::decimal((nanos / 1_000_000_000) as int) + "s remaining, "@ + number::decimal(
            n as int,
        ) + " prior restarts)"@,
{
}

/// What a pass begins with of a container is its id, its count and the kinds of its probes, as they are
/// remembered, and nothing exactly where nothing is.
pub proof fn what_a_pass_begins_with(
    local: Map<KeyView, PodView>,
    k: KeyView,
    name: Seq<char>,
    r: Option<RecordRef>,
)
    requires
        remembered(local, k, name, r),
    ensures
        r is None <==> kubelet::record_of(local, k, name) is None,
        r matches Some(x) ==> {
            let rec = kubelet::record_of(local, k, name).unwrap();
            &&& x.container_id@ == rec.container_id
            &&& x.restart_count == rec.restart_count
            &&& x.probes.startup == rec.probes.startup is Some
            &&& x.probes.readiness == rec.probes.readiness is Some
            &&& x.probes.liveness == rec.probes.liveness is Some
        },
{
}

} // verus!
