//! Running the init containers of a pod: one after the other, sidecars beside them, before any
//! other container is started.

use vstd::prelude::*;
use crate::backend::{clone_mounts, ContainerSpec, ContainerStatus, ResolvedMount, SpecView};
use crate::cri::ExitDisposition;
use crate::error::{self, KubeletError};
use crate::json::Json;
use crate::kubelet::{self, ContainerRecord, Kubelet, KubeletView, PodView, RecordView};
use crate::lifecycle::{
    self,
    next_init_action,
    observed_statuses,
    ContainerObservation,
    ContainerState,
    ContainerStatusOut,
    InitAction,
    InitKind,
    InitStep,
    ObsView,
    PodPhase,
    RestartPolicy,
    StateView,
    StatusView,
    Termination,
};
use crate::pod_spec;
use crate::pod_status::{self, build_pod_status_with_init};
use crate::probes::ContainerProbeState;
use crate::report::{self, min_requeue, one_more, Tally, TallyView};
use crate::resource::{KeyView, ResourceKey};
use crate::running::{self, Poll};
use crate::text::{self, cat2, clone_opt};
use crate::time;

verus! {

/// What was remembered of an init container when the pass began.
#[derive(Debug)]
pub struct InitRef {
    pub container_id: String,
    pub restart_count: u32,
}

/// How a pass over init containers ends.
#[derive(Clone, Copy, Debug, PartialEq, Eq, Structural)]
pub enum InitEnd {
    /// All of them are done: the containers are started.
    Complete,
    /// One of them failed for good: so did the pod.
    Failed,
    /// Only sidecars were started, and nothing is waited for any more: the containers are started
    /// alongside them.
    Unblocked,
    /// One of them is waited for.
    Pending,
}

/// What a pass over init containers waits for.
#[derive(Debug)]
pub enum InitStage {
    /// What the runtime says of the container.
    Observing,
    /// What the runtime says of the container that is to be started, which was started before.
    Checking,
    /// Whether the container was started, for the time that this counts as, in place of this one.
    Starting { restart_count: u32, old_id: Option<String> },
    /// What the runtime says of the container, which is this one, now.
    Reporting { id: String, restart_count: u32 },
    /// Nothing.
    Over(InitEnd),
}

/// What an `InitStage` stands for.
pub enum InitStageView {
    Observing,
    Checking,
    Starting { restart_count: u32, old_id: Option<Seq<char>> },
    Reporting { id: Seq<char>, restart_count: u32 },
    Over(InitEnd),
}

impl View for InitStage {
    type V = InitStageView;

    open spec fn view(&self) -> InitStageView {
        match self {
            InitStage::Observing => InitStageView::Observing,
            InitStage::Checking => InitStageView::Checking,
            InitStage::Starting { restart_count, old_id } => InitStageView::Starting {
                restart_count: *restart_count,
                old_id: lifecycle::opt_string(*old_id),
            },
            InitStage::Reporting { id, restart_count } => InitStageView::Reporting {
                id: id@,
                restart_count: *restart_count,
            },
            InitStage::Over(e) => InitStageView::Over(*e),
        }
    }
}

/// A pass over the init containers of a pod.
#[derive(Debug)]
pub struct InitPass {
    pub key: ResourceKey,
    /// The init containers of the manifest, in order.
    pub specs: Vec<(String, ContainerSpec)>,
    /// What was remembered of each when the pass began.
    pub before: Vec<Option<InitRef>>,
    /// What each mounts, or why that is not there.
    pub mounts: Vec<Result<Vec<ResolvedMount>, String>>,
    pub aliases: Vec<String>,
    pub hosts: Vec<String>,
    pub policy: RestartPolicy,
    /// A place among the containers, or, while some are started, among those.
    pub at: usize,
    pub stage: InitStage,
    /// What was seen of the containers.
    pub observations: Vec<ContainerObservation>,
    /// The places of those that are started.
    pub start: Vec<usize>,
    /// The place of the one that is waited for.
    pub blocked_on: Option<usize>,
    pub pod_ip: Option<String>,
    /// What is published of the containers.
    pub statuses: Vec<ContainerStatusOut>,
    pub tally: Tally,
}

/// What a list of mounts of containers stands for.
pub open spec fn mount_results(v: Seq<Result<Vec<ResolvedMount>, String>>) -> Seq<
    Result<Seq<ResolvedMount>, Seq<char>>,
> {
    v.map_values(
        |m: Result<Vec<ResolvedMount>, String>|
            match m {
                Ok(x) => Ok(x@),
                Err(e) => Err(e@),
            },
    )
}

/// What an `InitPass` stands for.
#[verifier::ext_equal]
pub struct InitView {
    pub key: KeyView,
    pub specs: Seq<(Seq<char>, SpecView)>,
    pub before: Seq<Option<InitRef>>,
    pub mounts: Seq<Result<Seq<ResolvedMount>, Seq<char>>>,
    pub aliases: Seq<Seq<char>>,
    pub hosts: Seq<Seq<char>>,
    pub policy: RestartPolicy,
    pub at: int,
    pub stage: InitStageView,
    pub observations: Seq<ObsView>,
    pub start: Seq<usize>,
    pub blocked_on: Option<usize>,
    pub pod_ip: Option<Seq<char>>,
    pub statuses: Seq<StatusView>,
    pub tally: TallyView,
}

impl View for InitPass {
    type V = InitView;

    open spec fn view(&self) -> InitView {
        InitView {
            key: self.key@,
            specs: pod_spec::spec_views(self.specs@),
            before: self.before@,
            mounts: mount_results(self.mounts@),
            aliases: text::texts(self.aliases@),
            hosts: text::texts(self.hosts@),
            policy: self.policy,
            at: self.at as int,
            stage: self.stage@,
            observations: lifecycle::obs_views(self.observations@),
            start: self.start@,
            blocked_on: self.blocked_on,
            pod_ip: lifecycle::opt_string(self.pod_ip),
            statuses: lifecycle::status_views(self.statuses@),
            tally: self.tally@,
        }
    }
}

impl InitView {
    /// The place of the container that is started.
    pub open spec fn active(self) -> int {
        self.start[self.at] as int
    }

    /// The parts that a pass is made of fit together.
    pub open spec fn fits(self) -> bool {
        &&& self.before.len() == self.specs.len()
        &&& self.mounts.len() == self.specs.len()
        &&& self.specs.len() <= usize::MAX
        &&& forall|k: int|
            0 <= k < self.start.len() ==> (#[trigger] self.start[k]) < self.specs.len()
    }

    /// What was seen, and what is published, is kept for the containers in their order, from the
    /// first on.
    pub open spec fn in_order(self) -> bool {
        &&& self.observations.len() <= self.specs.len()
        &&& forall|i: int|
            0 <= i < self.observations.len() ==> (#[trigger] self.observations[i]).name
                == self.specs[i].0
        &&& self.statuses.len() <= self.specs.len()
        &&& forall|i: int|
            0 <= i < self.statuses.len() ==> (#[trigger] self.statuses[i]).name
                == self.specs[i].0
    }

    /// All containers were seen.
    pub open spec fn all_seen(self) -> bool {
        self.in_order() && self.observations.len() == self.specs.len()
    }

    /// A pass that can go on.
    pub open spec fn well_formed(self) -> bool {
        &&& self.fits()
        &&& self.in_order()
        &&& match self.stage {
            InitStageView::Observing => {
                &&& 0 <= self.at < self.specs.len()
                &&& self.observations.len() == self.at
                &&& self.before[self.at] is Some
                &&& self.statuses.len() == 0
            },
            InitStageView::Checking => {
                &&& self.all_seen()
                &&& 0 <= self.at < self.start.len()
                &&& self.before[self.active()] is Some
                &&& self.mounts[self.active()] is Ok
                &&& self.statuses.len() == 0
            },
            InitStageView::Starting { .. } => {
                &&& self.all_seen()
                &&& 0 <= self.at < self.start.len()
                &&& self.mounts[self.active()] is Ok
                &&& self.statuses.len() == 0
            },
            InitStageView::Reporting { .. } => {
                &&& self.all_seen()
                &&& 0 <= self.at < self.specs.len()
                &&& self.statuses.len() == self.at
            },
            InitStageView::Over(end) => {
                &&& self.all_seen()
                &&& end is Pending ==> self.statuses.len() == self.specs.len()
            },
        }
    }
}

// ---- what is seen --------------------------------------------------------------------------

/// What was seen of an init container, with its kind, and whether it was ever started.
pub open spec fn marked(o: ObsView, spec: SpecView, recorded: bool) -> ObsView {
    ObsView {
        kind: if spec.init_kind is Sidecar {
            InitKind::Sidecar
        } else {
            o.kind
        },
        ever_started: recorded,
        ..o
    }
}

/// The pass at the next container whose state is asked for; once all were seen, what is done.
pub open spec fn to_observe(v: InitView, local: Map<KeyView, PodView>) -> InitView
    decreases v.specs.len() - v.at,
{
    if v.at < 0 || v.at >= v.specs.len() {
        decided(v, local)
    } else if v.before[v.at] is None {
        to_observe(
            InitView {
                observations: v.observations.push(
                    marked(lifecycle::waiting_view(v.specs[v.at].0), v.specs[v.at].1, false),
                ),
                at: v.at + 1,
                ..v
            },
            local,
        )
    } else {
        InitView { stage: InitStageView::Observing, ..v }
    }
}

/// The pass once all containers were seen.
pub open spec fn decided(v: InitView, local: Map<KeyView, PodView>) -> InitView {
    match lifecycle::init_step(v.policy, v.observations) {
        InitStep::Complete => InitView { stage: InitStageView::Over(InitEnd::Complete), ..v },
        InitStep::InitFailed { .. } => InitView {
            stage: InitStageView::Over(InitEnd::Failed),
            ..v
        },
        InitStep::AwaitInit { start, blocked_on } => to_act(
            InitView { start, blocked_on, at: 0, ..v },
            local,
        ),
    }
}

// ---- what is started -----------------------------------------------------------------------

/// The pass at the next container that is to be started; once all were tried, what is published.
/// One that asks for a volume that the pod does not have is passed over.
pub open spec fn to_act(v: InitView, local: Map<KeyView, PodView>) -> InitView
    decreases v.start.len() - v.at,
{
    if v.at < 0 || v.at >= v.start.len() {
        if v.blocked_on is None {
            InitView { stage: InitStageView::Over(InitEnd::Unblocked), ..v }
        } else {
            to_report(InitView { at: 0, ..v }, local)
        }
    } else if v.mounts[v.active()] is Err {
        to_act(InitView { tally: v.tally.skipped(), at: v.at + 1, ..v }, local)
    } else if v.before[v.active()] is None {
        InitView { stage: InitStageView::Starting { restart_count: 0, old_id: None }, ..v }
    } else {
        InitView { stage: InitStageView::Checking, ..v }
    }
}

/// The container that is started.
pub open spec fn init_to_start(v: InitView) -> SpecView {
    SpecView {
        network_aliases: v.aliases,
        host_add: v.hosts,
        mounts: v.mounts[v.active()]->Ok_0,
        ..v.specs[v.active()].1
    }
}

/// What is remembered of an init container that was started. It has no probes, and is not held
/// back.
pub open spec fn init_record(v: InitView, id: Seq<char>, restart_count: u32) -> RecordView {
    RecordView {
        container_id: id,
        restart_count,
        probes: ContainerProbeState { liveness: None, readiness: None, startup: None },
        started_at: None,
        mounts: init_to_start(v).mounts,
        terminated_at: None,
    }
}

// ---- what is published ---------------------------------------------------------------------

/// The pass at the next container whose state is asked for, to be published. What was not started
/// is being created.
pub open spec fn to_report(v: InitView, local: Map<KeyView, PodView>) -> InitView
    decreases v.specs.len() - v.at,
{
    if v.at < 0 || v.at >= v.specs.len() {
        InitView { stage: InitStageView::Over(InitEnd::Pending), ..v }
    } else {
        match kubelet::init_record_of(local, v.key, v.specs[v.at].0) {
            None => to_report(
                InitView {
                    statuses: v.statuses.push(
                        lifecycle::status_of(lifecycle::waiting_view(v.specs[v.at].0)),
                    ),
                    at: v.at + 1,
                    ..v
                },
                local,
            ),
            Some(rec) => InitView {
                stage: InitStageView::Reporting {
                    id: rec.container_id,
                    restart_count: rec.restart_count,
                },
                ..v
            },
        }
    }
}

// ---- the answers ---------------------------------------------------------------------------

/// What was seen of a container of which the runtime says this.
pub open spec fn seen_as(name: Seq<char>, rec: InitRef, poll: Poll) -> ObsView {
    match poll {
        Poll::Seen(s) => lifecycle::started_view(
            name,
            rec.container_id@,
            rec.restart_count,
            if s.running {
                StateView::Running
            } else {
                StateView::Terminated(lifecycle::ended_as(s.exit_code))
            },
            s.running,
        ),
        _ => lifecycle::waiting_view(name),
    }
}

/// The pass once the runtime said this.
pub open spec fn after_init_poll(v: InitView, local: Map<KeyView, PodView>, poll: Poll) -> InitView {
    let tally = if poll is Failed {
        v.tally.skipped()
    } else {
        v.tally
    };
    match v.stage {
        InitStageView::Observing => to_observe(
            InitView {
                observations: v.observations.push(
                    marked(
                        seen_as(v.specs[v.at].0, v.before[v.at].unwrap(), poll),
                        v.specs[v.at].1,
                        true,
                    ),
                ),
                tally,
                at: v.at + 1,
                ..v
            },
            local,
        ),
        InitStageView::Checking => match poll {
            Poll::Seen(s) => if s.running {
                to_act(
                    InitView {
                        pod_ip: running::first_ip(v.pod_ip, lifecycle::opt_string(s.pod_ip)),
                        at: v.at + 1,
                        ..v
                    },
                    local,
                )
            } else {
                started_anew(v)
            },
            Poll::Gone => started_anew(v),
            Poll::Failed => to_act(InitView { tally, at: v.at + 1, ..v }, local),
        },
        InitStageView::Reporting { id, restart_count } => to_report(
            InitView {
                statuses: v.statuses.push(
                    StatusView {
                        name: v.specs[v.at].0,
                        ready: false,
                        state: match poll {
                            Poll::Seen(s) => if s.running {
                                StateView::Running
                            } else {
                                StateView::Terminated(lifecycle::ended_as(s.exit_code))
                            },
                            _ => StateView::Waiting { reason: "ContainerCreating"@ },
                        },
                        container_id: Some(id),
                        restart_count,
                    },
                ),
                at: v.at + 1,
                ..v
            },
            local,
        ),
        _ => v,
    }
}

/// The pass where a container that ended, or that the runtime lost, is started once more.
pub open spec fn started_anew(v: InitView) -> InitView {
    let rec = v.before[v.active()].unwrap();
    InitView {
        stage: InitStageView::Starting {
            restart_count: report::more_of(rec.restart_count),
            old_id: Some(rec.container_id@),
        },
        ..v
    }
}

/// What is remembered once the container was started, or was not.
pub open spec fn local_after_init_start(
    v: InitView,
    local: Map<KeyView, PodView>,
    started: Option<ContainerStatus>,
) -> Map<KeyView, PodView> {
    match started {
        Some(s) => kubelet::with_init_record(
            local,
            v.key,
            v.specs[v.active()].0,
            init_record(v, s.container_id@, v.stage->Starting_restart_count),
        ),
        None => local,
    }
}

/// The pass once the container was started, or was not.
pub open spec fn after_init_start(
    v: InitView,
    local: Map<KeyView, PodView>,
    started: Option<ContainerStatus>,
) -> InitView {
    to_act(
        match started {
            Some(s) => InitView {
                pod_ip: running::first_ip(v.pod_ip, lifecycle::opt_string(s.pod_ip)),
                tally: v.tally.changed(),
                at: v.at + 1,
                ..v
            },
            None => InitView { tally: v.tally.skipped(), at: v.at + 1, ..v },
        },
        local_after_init_start(v, local, started),
    )
}

// ---- the calls -----------------------------------------------------------------------------

/// What is asked for.
#[derive(Debug)]
pub enum InitCall {
    /// What the runtime says of this container.
    Poll { id: String },
    /// Stopping and removing the container of this id, whatever comes of it, where there is one,
    /// and starting this one.
    Start { old_id: Option<String>, spec: ContainerSpec },
    /// Nothing more.
    Finish,
}

/// What an `InitCall` stands for.
pub enum InitCallView {
    Poll { id: Seq<char> },
    Start { old_id: Option<Seq<char>>, spec: SpecView },
    Finish,
}

impl View for InitCall {
    type V = InitCallView;

    open spec fn view(&self) -> InitCallView {
        match self {
            InitCall::Poll { id } => InitCallView::Poll { id: id@ },
            InitCall::Start { old_id, spec } => InitCallView::Start {
                old_id: lifecycle::opt_string(*old_id),
                spec: spec@,
            },
            InitCall::Finish => InitCallView::Finish,
        }
    }
}

/// What a pass asks for.
pub open spec fn init_asks(v: InitView) -> InitCallView {
    match v.stage {
        InitStageView::Observing => InitCallView::Poll {
            id: v.before[v.at].unwrap().container_id@,
        },
        InitStageView::Checking => InitCallView::Poll {
            id: v.before[v.active()].unwrap().container_id@,
        },
        InitStageView::Starting { old_id, .. } => InitCallView::Start {
            old_id,
            spec: init_to_start(v),
        },
        InitStageView::Reporting { id, .. } => InitCallView::Poll { id },
        InitStageView::Over(_) => InitCallView::Finish,
    }
}

/// The words for an init container that asks for a volume that is not there.
pub open spec fn init_volume_text(words: Seq<char>) -> Seq<char> {
    "init container volume: "@ + words
}

/// An init container, ready to be started.
pub fn build_init_spec(
    cname: &str,
    base: &ContainerSpec,
    aliases: &[String],
    hosts: &[String],
    mounts: &Result<Vec<ResolvedMount>, String>,
) -> (r: Result<ContainerSpec, KubeletError>)
    ensures
        match *mounts {
            Ok(m) => r matches Ok(spec) && spec@ == (SpecView {
                network_aliases: text::texts(aliases@),
                host_add: text::texts(hosts@),
                mounts: m@,
                ..base@
            }),
            Err(words) => r matches Err(e) && error::invalid_pod(
                e,
                cname@,
                init_volume_text(words@),
            ),
        },
{
    match mounts {
        Ok(m) => Ok(
            base.copy().with_names(aliases, hosts).with_mounts(clone_mounts(m.as_slice())),
        ),
        Err(words) => Err(
            KubeletError::InvalidPod {
                pod: cname.to_owned(),
                reason: cat2("init container volume: ", words.as_str()),
            },
        ),
    }
}

// ---- proofs --------------------------------------------------------------------------------

proof fn to_report_keeps_form(v: InitView, local: Map<KeyView, PodView>)
    requires
        v.fits(),
        v.all_seen(),
        0 <= v.at <= v.specs.len(),
        v.statuses.len() == v.at,
    ensures
        to_report(v, local).well_formed(),
    decreases v.specs.len() - v.at,
{
    if v.at < v.specs.len() && kubelet::init_record_of(local, v.key, v.specs[v.at].0) is None {
        to_report_keeps_form(
            InitView {
                statuses: v.statuses.push(
                    lifecycle::status_of(lifecycle::waiting_view(v.specs[v.at].0)),
                ),
                at: v.at + 1,
                ..v
            },
            local,
        );
    }
}

proof fn to_act_keeps_form(v: InitView, local: Map<KeyView, PodView>)
    requires
        v.fits(),
        v.all_seen(),
        0 <= v.at <= v.start.len(),
        v.statuses.len() == 0,
    ensures
        to_act(v, local).well_formed(),
    decreases v.start.len() - v.at,
{
    if v.at < v.start.len() {
        assert(v.start[v.at] < v.specs.len());
        if v.mounts[v.active()] is Err {
            to_act_keeps_form(InitView { tally: v.tally.skipped(), at: v.at + 1, ..v }, local);
        }
    } else {
        to_report_keeps_form(InitView { at: 0, ..v }, local);
    }
}

proof fn starts_are_in_range(v: InitView)
    requires
        v.specs.len() <= usize::MAX,
        v.observations.len() == v.specs.len(),
        lifecycle::init_step(v.policy, v.observations) is AwaitInit,
    ensures
        forall|k: int|
            0 <= k < lifecycle::init_step(v.policy, v.observations)->start.len() ==> (
            #[trigger] lifecycle::init_step(v.policy, v.observations)->start[k]) < v.specs.len(),
{
    assert forall|k: int|
        0 <= k < lifecycle::init_step(v.policy, v.observations)->start.len() implies (
    #[trigger] lifecycle::init_step(v.policy, v.observations)->start[k]) < v.specs.len() by {
        lifecycle::one_init_at_a_time(v.policy, v.observations, k);
    }
}

/// Whether this is how a pass begins that has seen nothing yet: at the first init container of
/// which something is remembered.
pub open spec fn begun(p: InitPass, local: Map<KeyView, PodView>, v: InitView) -> bool {
    &&& p.before@.len() == v.specs.len()
    &&& forall|i: int|
        0 <= i < v.specs.len() ==> init_remembered(
            local,
            v.key,
            v.specs[i].0,
            #[trigger] p.before@[i],
        )
    &&& p@ == to_observe(v, local)
}

impl InitPass {
    /// A pass over the init containers of a pod.
    pub fn begin(
        kubelet: &Kubelet,
        key: &ResourceKey,
        specs: Vec<(String, ContainerSpec)>,
        mounts: Vec<Result<Vec<ResolvedMount>, String>>,
        aliases: Vec<String>,
        hosts: Vec<String>,
        policy: RestartPolicy,
        tally: Tally,
    ) -> (r: InitPass)
        requires
            mounts@.len() == specs@.len(),
        ensures
            r@.well_formed(),
            begun(
                r,
                kubelet@.local,
                InitView {
                    key: key@,
                    specs: pod_spec::spec_views(specs@),
                    before: r.before@,
                    mounts: mount_results(mounts@),
                    aliases: text::texts(aliases@),
                    hosts: text::texts(hosts@),
                    policy,
                    at: 0,
                    stage: InitStageView::Observing,
                    observations: Seq::empty(),
                    start: Seq::empty(),
                    blocked_on: None,
                    pod_ip: None,
                    statuses: Seq::empty(),
                    tally: tally@,
                },
            ),
    {
        let mut before: Vec<Option<InitRef>> = Vec::new();
        let mut i: usize = 0;
        while i < specs.len()
            invariant
                i <= specs@.len(),
                before@.len() == i,
                forall|j: int|
                    0 <= j < i ==> init_remembered(
                        kubelet@.local,
                        key@,
                        specs@[j].0@,
                        #[trigger] before@[j],
                    ),
            decreases specs@.len() - i,
        {
            let r = match kubelet.local_pod(key) {
                Some(p) => match p.init_containers.get(specs[i].0.as_str()) {
                    Some(rec) => Some(
                        InitRef {
                            container_id: rec.container_id.clone(),
                            restart_count: rec.restart_count,
                        },
                    ),
                    None => None,
                },
                None => None,
            };
            before.push(r);
            i += 1;
        }
        assert(i == specs.len());
        let mut pass = InitPass {
            key: key.copy(),
            specs,
            before,
            mounts,
            aliases,
            hosts,
            policy,
            at: 0,
            stage: InitStage::Observing,
            observations: Vec::new(),
            start: Vec::new(),
            blocked_on: None,
            pod_ip: None,
            statuses: Vec::new(),
            tally,
        };
        assert(pass@.observations =~= Seq::<ObsView>::empty());
        assert(pass@.statuses =~= Seq::<StatusView>::empty());
        pass.observe_on(kubelet);
        pass
    }

    fn report_on(&mut self, kubelet: &Kubelet)
        requires
            old(self)@.fits(),
            old(self)@.all_seen(),
            old(self)@.at <= old(self)@.specs.len(),
            old(self)@.statuses.len() == old(self)@.at,
        ensures
            final(self)@ == to_report(old(self)@, kubelet@.local),
            final(self)@.well_formed(),
            final(self).before@ == old(self).before@,
    {
        let ghost v = self@;
        proof {
            to_report_keeps_form(v, kubelet@.local);
        }
        while self.at < self.specs.len()
            invariant
                v == old(self)@,
                self@.fits(),
                self@.at <= self@.specs.len(),
                to_report(self@, kubelet@.local) == to_report(v, kubelet@.local),
                to_report(v, kubelet@.local).well_formed(),
                self.before@ == old(self).before@,
            decreases self@.specs.len() - self@.at,
        {
            let ghost was = self@;
            let name = self.specs[self.at].0.clone();
            if let Some(p) = kubelet.local_pod(&self.key) {
                if let Some(rec) = p.init_containers.get(name.as_str()) {
                    self.stage = InitStage::Reporting {
                        id: rec.container_id.clone(),
                        restart_count: rec.restart_count,
                    };
                    assert(self@ =~= to_report(was, kubelet@.local));
                    return ;
                }
            }
            let s = ContainerStatusOut {
                name,
                ready: false,
                state: ContainerState::creating(),
                container_id: None,
                restart_count: 0,
            };
            assert(s@ == lifecycle::status_of(lifecycle::waiting_view(was.specs[was.at].0)));
            self.statuses.push(s);
            assert(self@.statuses =~= was.statuses.push(s@));
            self.at = self.at + 1;
            assert(self@ =~= (InitView {
                statuses: was.statuses.push(s@),
                at: was.at + 1,
                ..was
            }));
        }
        self.stage = InitStage::Over(InitEnd::Pending);
    }

    fn act_on(&mut self, kubelet: &Kubelet)
        requires
            old(self)@.fits(),
            old(self)@.all_seen(),
            old(self)@.at <= old(self)@.start.len(),
            old(self)@.statuses.len() == 0,
        ensures
            final(self)@ == to_act(old(self)@, kubelet@.local),
            final(self)@.well_formed(),
            final(self).before@ == old(self).before@,
    {
        let ghost v = self@;
        proof {
            to_act_keeps_form(v, kubelet@.local);
        }
        while self.at < self.start.len()
            invariant
                v == old(self)@,
                self@.fits(),
                self@.all_seen(),
                self@.at <= self@.start.len(),
                self@.statuses.len() == 0,
                to_act(self@, kubelet@.local) == to_act(v, kubelet@.local),
                to_act(v, kubelet@.local).well_formed(),
                self.before@ == old(self).before@,
            decreases self@.start.len() - self@.at,
        {
            let ghost was = self@;
            let i: usize = self.start[self.at];
            assert(self@.start[self@.at] < self@.specs.len());
            assert(was.active() == i);
            if self.mounts[i].is_ok() {
                self.stage = if self.before[i].is_none() {
                    InitStage::Starting { restart_count: 0, old_id: None }
                } else {
                    InitStage::Checking
                };
                assert(self@ =~= to_act(was, kubelet@.local));
                return ;
            }
            self.tally.skipped();
            self.at = self.at + 1;
            assert(self@ =~= (InitView { tally: was.tally.skipped(), at: was.at + 1, ..was }));
        }
        if self.blocked_on.is_none() {
            self.stage = InitStage::Over(InitEnd::Unblocked);
        } else {
            let ghost was = self@;
            self.at = 0;
            assert(self@ =~= (InitView { at: 0, ..was }));
            self.report_on(kubelet);
        }
    }

    fn observe_on(&mut self, kubelet: &Kubelet)
        requires
            old(self)@.fits(),
            old(self)@.in_order(),
            old(self)@.at <= old(self)@.specs.len(),
            old(self)@.observations.len() == old(self)@.at,
            old(self)@.statuses.len() == 0,
        ensures
            final(self)@ == to_observe(old(self)@, kubelet@.local),
            final(self)@.well_formed(),
            final(self).before@ == old(self).before@,
    {
        let ghost v = self@;
        while self.at < self.specs.len()
            invariant
                v == old(self)@,
                self@.fits(),
                self@.in_order(),
                self@.at <= self@.specs.len(),
                self@.observations.len() == self@.at,
                self@.statuses.len() == 0,
                to_observe(self@, kubelet@.local) == to_observe(v, kubelet@.local),
                self.before@ == old(self).before@,
            decreases self@.specs.len() - self@.at,
        {
            let ghost was = self@;
            if self.before[self.at].is_some() {
                self.stage = InitStage::Observing;
                assert(self@ =~= to_observe(was, kubelet@.local));
                return ;
            }
            let o = ContainerObservation::waiting(self.specs[self.at].0.as_str());
            let o = self.mark(o, false);
            assert(o@ == marked(
                lifecycle::waiting_view(was.specs[was.at].0),
                was.specs[was.at].1,
                false,
            ));
            self.observations.push(o);
            assert(self@.observations =~= was.observations.push(o@));
            self.at = self.at + 1;
            assert(self@ =~= (InitView {
                observations: was.observations.push(o@),
                at: was.at + 1,
                ..was
            }));
        }
        let ghost was = self@;
        match next_init_action(self.policy, self.observations.as_slice()) {
            InitAction::Complete => {
                self.stage = InitStage::Over(InitEnd::Complete);
            },
            InitAction::InitFailed { .. } => {
                self.stage = InitStage::Over(InitEnd::Failed);
            },
            InitAction::AwaitInit { start, blocked_on } => {
                proof {
                    starts_are_in_range(was);
                }
                self.start = start;
                self.blocked_on = blocked_on;
                self.at = 0;
                assert(self@ =~= (InitView { start: start@, blocked_on, at: 0, ..was }));
                self.act_on(kubelet);
            },
        }
    }

    fn mark(&self, o: ContainerObservation, recorded: bool) -> (r: ContainerObservation)
        requires
            self@.at < self@.specs.len(),
        ensures
            r@ == marked(o@, self@.specs[self@.at].1, recorded),
    {
        let o = if self.specs[self.at].1.init_kind.is_sidecar() {
            o.as_sidecar()
        } else {
            o
        };
        o.with_ever_started(recorded)
    }

    /// What the pass asks for.
    pub fn call(&self) -> (r: InitCall)
        requires
            self@.well_formed(),
        ensures
            r@ == init_asks(self@),
    {
        match &self.stage {
            InitStage::Observing => match &self.before[self.at] {
                Some(rec) => InitCall::Poll { id: rec.container_id.clone() },
                None => InitCall::Finish,
            },
            InitStage::Checking => {
                let i: usize = self.start[self.at];
                assert(self@.start[self@.at] < self@.specs.len());
                match &self.before[i] {
                    Some(rec) => InitCall::Poll { id: rec.container_id.clone() },
                    None => InitCall::Finish,
                }
            },
            InitStage::Starting { old_id, .. } => {
                let i: usize = self.start[self.at];
                assert(self@.start[self@.at] < self@.specs.len());
                assert(self@.mounts[self@.active()] is Ok);
                match build_init_spec(
                    self.specs[i].0.as_str(),
                    &self.specs[i].1,
                    self.aliases.as_slice(),
                    self.hosts.as_slice(),
                    &self.mounts[i],
                ) {
                    Ok(spec) => InitCall::Start { old_id: clone_opt(old_id), spec },
                    Err(_) => InitCall::Finish,
                }
            },
            InitStage::Reporting { id, .. } => InitCall::Poll { id: id.clone() },
            InitStage::Over(_) => InitCall::Finish,
        }
    }
}

/// Whether this was remembered of an init container.
pub open spec fn init_remembered(
    local: Map<KeyView, PodView>,
    k: KeyView,
    name: Seq<char>,
    r: Option<InitRef>,
) -> bool {
    match kubelet::init_record_of(local, k, name) {
        Some(rec) => r matches Some(x) && x.container_id@ == rec.container_id && x.restart_count
            == rec.restart_count,
        None => r is None,
    }
}

/// What comes of a pass over init containers.
#[derive(Debug)]
pub enum InitOutcome {
    /// The containers of the pod are started.
    StartApp,
    /// This is published of the pod.
    Publish(Json),
}

impl InitPass {
    /// Takes in what the runtime says of the container that it was asked for.
    pub fn polled(&mut self, kubelet: &Kubelet, poll: Poll)
        requires
            old(self)@.well_formed(),
            init_asks(old(self)@) is Poll,
        ensures
            final(self)@ == after_init_poll(old(self)@, kubelet@.local, poll),
            final(self)@.well_formed(),
    {
        let ghost was = self@;
        if let Poll::Failed = poll {
            match &self.stage {
                InitStage::Reporting { .. } => {},
                _ => {
                    self.tally.skipped();
                },
            }
        }
        let reporting: Option<(String, u32)> = match &self.stage {
            InitStage::Reporting { id, restart_count } => Some((id.clone(), *restart_count)),
            _ => None,
        };
        if let Some((id, restart_count)) = reporting {
            let state = match poll {
                Poll::Seen(s) => if s.running {
                    ContainerState::Running
                } else {
                    ContainerState::terminated(Termination::from_exit_code(s.exit_code))
                },
                _ => ContainerState::creating(),
            };
            let s = ContainerStatusOut {
                name: self.specs[self.at].0.clone(),
                ready: false,
                state,
                container_id: Some(id),
                restart_count,
            };
            self.statuses.push(s);
            assert(self@.statuses =~= was.statuses.push(s@));
            self.at = self.at + 1;
            assert(self@ =~= (InitView {
                statuses: was.statuses.push(s@),
                at: was.at + 1,
                ..was
            }));
            self.report_on(kubelet);
            return ;
        }
        let observing = match &self.stage {
            InitStage::Observing => true,
            _ => false,
        };
        if observing {
            let (id, count): (String, u32) = match &self.before[self.at] {
                Some(rec) => (rec.container_id.clone(), rec.restart_count),
                None => (String::new(), 0),
            };
            let name = self.specs[self.at].0.clone();
            let o = match poll {
                Poll::Seen(s) => if s.running {
                    ContainerObservation::running(name.as_str(), id.as_str(), count)
                } else {
                    ContainerObservation::terminated(
                        name.as_str(),
                        id.as_str(),
                        Termination::from_exit_code(s.exit_code),
                        count,
                    )
                },
                _ => ContainerObservation::waiting(name.as_str()),
            };
            assert(o@ == seen_as(was.specs[was.at].0, was.before[was.at].unwrap(), poll));
            let o = self.mark(o, true);
            self.observations.push(o);
            assert(self@.observations =~= was.observations.push(o@));
            assert(self.at < self.specs.len());
            self.at = self.at + 1;
            self.observe_on(kubelet);
            return ;
        }
        let i: usize = self.start[self.at];
        assert(was.start[was.at] < was.specs.len());
        let (id, count): (String, u32) = match &self.before[i] {
            Some(rec) => (rec.container_id.clone(), rec.restart_count),
            None => (String::new(), 0),
        };
        let anew = match poll {
            Poll::Seen(s) => if s.running {
                if self.pod_ip.is_none() {
                    self.pod_ip = s.pod_ip;
                }
                false
            } else {
                true
            },
            Poll::Gone => true,
            Poll::Failed => false,
        };
        if anew {
            self.stage = InitStage::Starting { restart_count: one_more(count), old_id: Some(id) };
            assert(self@ =~= started_anew(was));
        } else {
            assert(self.at < self.start.len());
            self.at = self.at + 1;
            self.act_on(kubelet);
        }
    }

    /// Takes in whether the container was started, and what the runtime says of it.
    pub fn started(&mut self, kubelet: &mut Kubelet, started: Option<ContainerStatus>)
        requires
            old(self)@.well_formed(),
            old(self)@.stage is Starting,
        ensures
            final(self)@ == after_init_start(old(self)@, old(kubelet)@.local, started),
            final(self)@.well_formed(),
            final(kubelet)@ == (KubeletView {
                local: local_after_init_start(old(self)@, old(kubelet)@.local, started),
                ..old(kubelet)@
            }),
    {
        let ghost was = self@;
        let i: usize = self.start[self.at];
        assert(was.start[was.at] < was.specs.len());
        match started {
            Some(s) => {
                let count: u32 = match &self.stage {
                    InitStage::Starting { restart_count, .. } => *restart_count,
                    _ => 0,
                };
                assert(was.mounts[i as int] is Ok);
                let mounts: Vec<ResolvedMount> = match &self.mounts[i] {
                    Ok(m) => clone_mounts(m.as_slice()),
                    Err(_) => Vec::new(),
                };
                let rec = ContainerRecord {
                    container_id: s.container_id,
                    restart_count: count,
                    probes: ContainerProbeState::default(),
                    started_at: None,
                    mounts,
                    terminated_at: None,
                };
                assert(rec@ == init_record(was, s.container_id@, count));
                kubelet.record_init_started(&self.key, self.specs[i].0.as_str(), rec);
                self.tally.changed();
                if self.pod_ip.is_none() {
                    self.pod_ip = s.pod_ip;
                }
            },
            None => {
                self.tally.skipped();
            },
        }
        assert(self.at < self.start.len());
        self.at = self.at + 1;
        self.act_on(kubelet);
    }

    /// Ends the pass. `now` is when the pod was started, where it was not told yet.
    pub fn finish(self, kubelet: &mut Kubelet, live: &Json, now: &str) -> (r: (InitOutcome, Tally))
        requires
            self@.stage is Over,
        ensures
            match self@.stage->Over_0 {
                InitEnd::Complete => {
                    &&& r.0 is StartApp
                    &&& r.1@ == self@.tally.changed()
                    &&& final(kubelet)@.local == init_marked(old(kubelet)@.local, self@.key)
                },
                InitEnd::Unblocked => {
                    &&& r.0 is StartApp
                    &&& r.1@ == self@.tally
                    &&& final(kubelet)@.local == init_marked(old(kubelet)@.local, self@.key)
                },
                InitEnd::Failed => {
                    &&& r.0 matches InitOutcome::Publish(status) && status@
                        == pod_status::pod_status(
                        live@,
                        PodPhase::Failed,
                        lifecycle::statuses_of(self@.observations),
                        Seq::empty(),
                        None,
                        false,
                        true,
                        now@,
                    )
                    &&& r.1@ == self@.tally
                    &&& final(kubelet)@.local == old(kubelet)@.local
                },
                InitEnd::Pending => {
                    &&& r.0 matches InitOutcome::Publish(status) && status@
                        == pod_status::pod_status(
                        live@,
                        PodPhase::Pending,
                        self@.statuses,
                        Seq::empty(),
                        self@.pod_ip,
                        false,
                        true,
                        now@,
                    )
                    &&& r.1@ == self@.tally.within(time::secs(1))
                    &&& final(kubelet)@.local == old(kubelet)@.local
                },
            },
            final(kubelet)@ == (KubeletView {
                local: final(kubelet)@.local,
                ..old(kubelet)@
            }),
    {
        let end = match &self.stage {
            InitStage::Over(e) => *e,
            _ => InitEnd::Pending,
        };
        let mut tally = self.tally;
        let none: Vec<ContainerStatusOut> = Vec::new();
        assert(lifecycle::status_views(none@) =~= Seq::<StatusView>::empty());
        match end {
            InitEnd::Complete => {
                kubelet.mark_init_complete(&self.key);
                tally.changed();
                (InitOutcome::StartApp, tally)
            },
            InitEnd::Unblocked => {
                kubelet.mark_init_complete(&self.key);
                (InitOutcome::StartApp, tally)
            },
            InitEnd::Failed => {
                let statuses = observed_statuses(self.observations.as_slice());
                let status = build_pod_status_with_init(
                    live,
                    PodPhase::Failed,
                    statuses.as_slice(),
                    none.as_slice(),
                    None,
                    false,
                    true,
                    now,
                );
                (InitOutcome::Publish(status), tally)
            },
            InitEnd::Pending => {
                let ip: Option<&str> = match &self.pod_ip {
                    Some(s) => Some(s.as_str()),
                    None => None,
                };
                let status = build_pod_status_with_init(
                    live,
                    PodPhase::Pending,
                    self.statuses.as_slice(),
                    none.as_slice(),
                    ip,
                    false,
                    true,
                    now,
                );
                tally.within(min_requeue());
                (InitOutcome::Publish(status), tally)
            },
        }
    }
}

/// What is remembered of a pod whose containers have nothing to wait for any more.
pub open spec fn init_marked(local: Map<KeyView, PodView>, k: KeyView) -> Map<KeyView, PodView> {
    local.insert(k, PodView { init_complete: true, ..kubelet::pod_or_empty(local, k) })
}

// ---- laws ----------------------------------------------------------------------------------

/// The containers of a pod are started by a pass over its init containers only where each of them
/// that is no sidecar was seen to have succeeded.
pub proof fn apps_wait_for_init(v: InitView, local: Map<KeyView, PodView>, i: int)
    requires
        decided(v, local).stage == InitStageView::Over(InitEnd::Complete),
        v.fits(),
        v.statuses.len() == 0,
        v.observations.len() == v.specs.len(),
        0 <= i < v.observations.len(),
    ensures
        v.observations[i].kind is Sidecar || lifecycle::ended_well(v.observations[i]),
{
    match lifecycle::init_step(v.policy, v.observations) {
        InitStep::Complete => {
            lifecycle::complete_means_succeeded(v.policy, v.observations, i);
        },
        InitStep::InitFailed { .. } => {},
        InitStep::AwaitInit { start, blocked_on } => {
            to_act_is_not_complete(InitView { start, blocked_on, at: 0, ..v }, local);
        },
    }
}

proof fn to_report_is_not_complete(v: InitView, local: Map<KeyView, PodView>)
    ensures
        to_report(v, local).stage != InitStageView::Over(InitEnd::Complete),
        to_report(v, local).stage != InitStageView::Over(InitEnd::Failed),
    decreases v.specs.len() - v.at,
{
    if 0 <= v.at < v.specs.len() && kubelet::init_record_of(
        local,
        v.key,
        v.specs[v.at].0,
    ) is None {
        to_report_is_not_complete(
            InitView {
                statuses: v.statuses.push(
                    lifecycle::status_of(lifecycle::waiting_view(v.specs[v.at].0)),
                ),
                at: v.at + 1,
                ..v
            },
            local,
        );
    }
}

proof fn to_act_is_not_complete(v: InitView, local: Map<KeyView, PodView>)
    ensures
        to_act(v, local).stage != InitStageView::Over(InitEnd::Complete),
        to_act(v, local).stage != InitStageView::Over(InitEnd::Failed),
    decreases v.start.len() - v.at,
{
    if 0 <= v.at < v.start.len() {
        if v.mounts[v.active()] is Err {
            to_act_is_not_complete(InitView { tally: v.tally.skipped(), at: v.at + 1, ..v }, local);
        }
    } else {
        to_report_is_not_complete(InitView { at: 0, ..v }, local);
    }
}

/// An init container that is up is left alone: it is not started a second time.
pub proof fn a_running_init_container_is_left_alone(
    v: InitView,
    local: Map<KeyView, PodView>,
    s: ContainerStatus,
)
    requires
        v.well_formed(),
        v.stage is Checking,
        s.running,
    ensures
        after_init_poll(v, local, Poll::Seen(s)) == to_act(
            InitView {
                pod_ip: running::first_ip(v.pod_ip, lifecycle::opt_string(s.pod_ip)),
                at: v.at + 1,
                ..v
            },
            local,
        ),
{
}

/// A container that ended or was lost is started in place of the old one, which counts as one more
/// restart.
pub proof fn an_init_restart_counts(v: InitView, local: Map<KeyView, PodView>, poll: Poll)
    requires
        v.well_formed(),
        v.stage is Checking,
        match poll {
            Poll::Seen(s) => !s.running,
            Poll::Gone => true,
            Poll::Failed => false,
        },
    ensures
        ({
            let rec = v.before[v.active()].unwrap();
            init_asks(after_init_poll(v, local, poll)) == (InitCallView::Start {
                old_id: Some(rec.container_id@),
                spec: init_to_start(v),
            })
        }),
        after_init_poll(v, local, poll).stage->Starting_restart_count == report::more_of(
            v.before[v.active()].unwrap().restart_count,
        ),
{
}

/// What is published of a pod whose init containers failed, or still hold it up, names every init
/// container of the manifest, in order.
pub proof fn every_init_container_is_told(v: InitView)
    requires
        v.well_formed(),
        v.stage is Over,
    ensures
        v.stage->Over_0 is Failed ==> {
            let told = lifecycle::statuses_of(v.observations);
            &&& told.len() == v.specs.len()
            &&& forall|i: int|
                0 <= i < v.specs.len() ==> (#[trigger] told[i]).name == v.specs[i].0
        },
        v.stage->Over_0 is Pending ==> {
            &&& v.statuses.len() == v.specs.len()
            &&& forall|i: int|
                0 <= i < v.specs.len() ==> (#[trigger] v.statuses[i]).name == v.specs[i].0
        },
{
    let told = lifecycle::statuses_of(v.observations);
    assert forall|i: int| 0 <= i < told.len() implies (#[trigger] told[i]).name
        == v.observations[i].name by {}
}

proof fn to_report_goes_to(v: InitView, local: Map<KeyView, PodView>)
    requires
        0 <= v.at <= v.specs.len(),
        v.statuses.len() == v.at,
    ensures
        ({
            let w = to_report(v, local);
            &&& v.at <= w.at <= v.specs.len()
            &&& w.statuses.len() == w.at
            &&& forall|i: int| 0 <= i < v.at ==> w.statuses[i] == v.statuses[i]
            &&& forall|i: int|
                v.at <= i < w.at ==> (#[trigger] w.statuses[i]) == lifecycle::status_of(
                    lifecycle::waiting_view(v.specs[i].0),
                ) && kubelet::init_record_of(local, v.key, v.specs[i].0) is None
            &&& w.at < v.specs.len() ==> match kubelet::init_record_of(
                local,
                v.key,
                v.specs[w.at].0,
            ) {
                Some(rec) => w.stage == (InitStageView::Reporting {
                    id: rec.container_id,
                    restart_count: rec.restart_count,
                }),
                None => false,
            }
            &&& w.at == v.specs.len() ==> w.stage == InitStageView::Over(InitEnd::Pending)
            &&& w == (InitView { at: w.at, stage: w.stage, statuses: w.statuses, ..v })
        }),
    decreases v.specs.len() - v.at,
{
    if v.at < v.specs.len() && kubelet::init_record_of(local, v.key, v.specs[v.at].0) is None {
        let n = InitView {
            statuses: v.statuses.push(
                lifecycle::status_of(lifecycle::waiting_view(v.specs[v.at].0)),
            ),
            at: v.at + 1,
            ..v
        };
        to_report_goes_to(n, local);
        let w = to_report(v, local);
        assert(w.statuses[v.at] == n.statuses[v.at]);
        assert forall|i: int| 0 <= i < v.at implies w.statuses[i] == v.statuses[i] by {
            assert(n.statuses[i] == v.statuses[i]);
        }
    }
}

proof fn to_act_goes_to(v: InitView, local: Map<KeyView, PodView>)
    requires
        v.fits(),
        0 <= v.at <= v.start.len(),
        v.statuses.len() == 0,
    ensures
        ({
            let w = to_act(v, local);
            &&& w.observations == v.observations
            &&& w.start == v.start
            &&& w.blocked_on == v.blocked_on
            &&& w.pod_ip == v.pod_ip
            &&& w.specs == v.specs
            &&& w.before == v.before
            &&& w.mounts == v.mounts
            &&& w.policy == v.policy
            &&& w.aliases == v.aliases
            &&& w.hosts == v.hosts
            &&& w.tally.events == v.tally.events
            &&& w.tally.soonest == v.tally.soonest
            &&& w.stage is Starting || w.stage is Checking ==> {
                &&& v.at <= w.at < v.start.len()
                &&& v.mounts[v.start[w.at] as int] is Ok
                &&& forall|k: int|
                    v.at <= k < w.at ==> v.mounts[(#[trigger] v.start[k]) as int] is Err
                &&& v.before[v.start[w.at] as int] is None ==> w.stage == (InitStageView::Starting {
                    restart_count: 0,
                    old_id: None,
                })
                &&& v.before[v.start[w.at] as int] is Some ==> w.stage is Checking
            }
            &&& !(w.stage is Starting || w.stage is Checking) ==> {
                &&& forall|k: int|
                    v.at <= k < v.start.len() ==> v.mounts[(#[trigger] v.start[k]) as int] is Err
                &&& v.blocked_on is None <==> w.stage == InitStageView::Over(InitEnd::Unblocked)
                &&& v.blocked_on is Some ==> w.stage is Reporting || w.stage
                    == InitStageView::Over(InitEnd::Pending)
            }
        }),
    decreases v.start.len() - v.at,
{
    if v.at < v.start.len() {
        if v.mounts[v.active()] is Err {
            to_act_goes_to(InitView { tally: v.tally.skipped(), at: v.at + 1, ..v }, local);
        }
    } else if v.blocked_on is Some {
        to_report_goes_to(InitView { at: 0, ..v }, local);
    }
}

proof fn decided_keeps(v: InitView, local: Map<KeyView, PodView>)
    requires
        v.fits(),
        v.observations.len() == v.specs.len(),
        v.statuses.len() == 0,
    ensures
        decided(v, local).observations == v.observations,
        decided(v, local).pod_ip == v.pod_ip,
        decided(v, local).specs == v.specs,
        decided(v, local).tally.events == v.tally.events,
{
    match lifecycle::init_step(v.policy, v.observations) {
        InitStep::AwaitInit { start, blocked_on } => {
            starts_are_in_range(v);
            to_act_goes_to(InitView { start, blocked_on, at: 0, ..v }, local);
        },
        _ => {},
    }
}

proof fn to_observe_keeps(v: InitView, local: Map<KeyView, PodView>)
    requires
        v.fits(),
        0 <= v.at <= v.specs.len(),
        v.observations.len() == v.at,
        v.statuses.len() == 0,
    ensures
        ({
            let w = to_observe(v, local);
            &&& v.at <= w.observations.len() <= v.specs.len()
            &&& forall|i: int|
                0 <= i < v.at ==> (#[trigger] w.observations[i]) == v.observations[i]
            &&& forall|i: int|
                v.at <= i < w.observations.len() ==> v.before[i] is None && (
                #[trigger] w.observations[i]) == marked(
                    lifecycle::waiting_view(v.specs[i].0),
                    v.specs[i].1,
                    false,
                )
            &&& w.pod_ip == v.pod_ip
            &&& w.specs == v.specs
            &&& w.tally.events == v.tally.events
            &&& w.observations.len() < v.specs.len() ==> w.stage is Observing && w.at
                == w.observations.len() && v.before[w.at] is Some && w.before == v.before
        }),
    decreases v.specs.len() - v.at,
{
    if v.at >= v.specs.len() {
        decided_keeps(v, local);
    } else if v.before[v.at] is None {
        let n = InitView {
            observations: v.observations.push(
                marked(lifecycle::waiting_view(v.specs[v.at].0), v.specs[v.at].1, false),
            ),
            at: v.at + 1,
            ..v
        };
        to_observe_keeps(n, local);
        let w = to_observe(v, local);
        assert(w.observations[v.at] == n.observations[v.at]);
        assert forall|i: int| 0 <= i < v.at implies (#[trigger] w.observations[i])
            == v.observations[i] by {
            assert(w.observations[i] == n.observations[i]);
        }
    }
}

/// What the runtime says of an init container is what is seen of it: up, or ended as it did, under its
/// id and its count; where it is lost or nothing is said it is seen to wait. It counts as one that
/// was started, and as a sidecar exactly where its manifest says so.
pub proof fn what_is_seen_of_an_init_container(
    v: InitView,
    local: Map<KeyView, PodView>,
    poll: Poll,
)
    requires
        v.well_formed(),
        v.stage is Observing,
    ensures
        ({
            let o = after_init_poll(v, local, poll).observations[v.at];
            let rec = v.before[v.at].unwrap();
            &&& o.name == v.specs[v.at].0
            &&& o.ever_started
            &&& o.kind is Sidecar <==> v.specs[v.at].1.init_kind is Sidecar
            &&& match poll {
                Poll::Seen(s) => {
                    &&& o.container_id == Some(rec.container_id@)
                    &&& o.restart_count == rec.restart_count
                    &&& o.ready == s.running
                    &&& s.running ==> o.state is Running
                    &&& !s.running ==> o.state == StateView::Terminated(
                        match s.exit_code {
                            Some(c) => Termination::Observed(ExitDisposition::Code(c)),
                            None => Termination::Unknown,
                        },
                    )
                },
                _ => o.state is Waiting && !o.ready && o.container_id is None && o.restart_count
                    == 0,
            }
        }),
        forall|i: int|
            0 <= i < v.at ==> (#[trigger] after_init_poll(v, local, poll).observations[i])
                == v.observations[i],
{
    let o = marked(
        seen_as(v.specs[v.at].0, v.before[v.at].unwrap(), poll),
        v.specs[v.at].1,
        true,
    );
    let n = InitView {
        observations: v.observations.push(o),
        tally: if poll is Failed {
            v.tally.skipped()
        } else {
            v.tally
        },
        at: v.at + 1,
        ..v
    };
    to_observe_keeps(n, local);
    let w = to_observe(n, local);
    assert(w.observations[v.at] == n.observations[v.at]);
    assert forall|i: int| 0 <= i < v.at implies (#[trigger] w.observations[i])
        == v.observations[i] by {
        assert(w.observations[i] == n.observations[i]);
    }
}

/// An init container that was not started is seen to wait for it, without asking.
pub proof fn the_unstarted_are_seen_to_wait(
    p: InitPass,
    local: Map<KeyView, PodView>,
    v: InitView,
    i: int,
)
    requires
        begun(p, local, v),
        v.fits(),
        v.at == 0,
        v.before == p.before@,
        v.observations.len() == 0,
        v.statuses.len() == 0,
        0 <= i < v.specs.len(),
        forall|k: int|
            0 <= k <= i ==> kubelet::init_record_of(local, v.key, (#[trigger] v.specs[k]).0) is None,
    ensures
        ({
            let o = p@.observations[i];
            &&& p@.observations.len() > i
            &&& o.name == v.specs[i].0
            &&& o.state is Waiting
            &&& !o.ever_started
            &&& !o.ready
            &&& o.container_id is None
            &&& o.kind is Sidecar <==> v.specs[i].1.init_kind is Sidecar
        }),
{
    to_observe_keeps(v, local);
    let w = to_observe(v, local);
    if w.observations.len() <= i {
        let k = w.at;
        assert(init_remembered(local, v.key, v.specs[k].0, p.before@[k]));
        assert(kubelet::init_record_of(local, v.key, v.specs[k].0) is None);
    }
    assert(w.observations[i] == marked(
        lifecycle::waiting_view(v.specs[i].0),
        v.specs[i].1,
        false,
    ));
}

/// Once all were seen: the first that is no sidecar and did not exit with zero fails the pod where it
/// ended under `Never`; otherwise it is waited for, and is among those to be started unless it is up.
pub proof fn what_is_done_about_the_first_unfinished(
    v: InitView,
    local: Map<KeyView, PodView>,
    g: int,
)
    requires
        v.fits(),
        v.statuses.len() == 0,
        v.observations.len() == v.specs.len(),
        0 <= g < v.observations.len(),
        forall|j: int|
            0 <= j < g ==> (#[trigger] v.observations[j]).kind is Sidecar || v.observations[j].state
                == StateView::Terminated(Termination::Observed(ExitDisposition::Code(0))),
        v.observations[g].kind is Regular,
        v.observations[g].state != StateView::Terminated(
            Termination::Observed(ExitDisposition::Code(0)),
        ),
    ensures
        ({
            let w = decided(v, local);
            if v.policy is Never && v.observations[g].state is Terminated {
                w.stage == InitStageView::Over(InitEnd::Failed)
            } else {
                &&& w.blocked_on == Some(g as usize)
                &&& w.start.contains(g as usize) <==> !(v.observations[g].state is Running)
                &&& w.stage is Starting || w.stage is Checking || w.stage is Reporting || w.stage
                    == InitStageView::Over(InitEnd::Pending)
            }
        }),
{
    if v.observations.len() > 1 {
        let k: int = if g == 0 {
            1
        } else {
            0
        };
        lifecycle::the_first_unfinished_is_waited_for(v.policy, v.observations, g, k);
    } else {
        lifecycle::the_only_unfinished_is_waited_for(v.policy, v.observations);
    }
    match lifecycle::init_step(v.policy, v.observations) {
        InitStep::AwaitInit { start, blocked_on } => {
            starts_are_in_range(v);
            to_act_goes_to(InitView { start, blocked_on, at: 0, ..v }, local);
        },
        _ => {},
    }
}

/// Once all were seen and each exited with zero, or is a sidecar that is up, the init containers are
/// done.
pub proof fn done_init_containers_are_done(v: InitView, local: Map<KeyView, PodView>)
    requires
        v.observations.len() <= usize::MAX,
        forall|k: int|
            0 <= k < v.observations.len() ==> if (#[trigger] v.observations[k]).kind is Sidecar {
                v.observations[k].ever_started && !(v.observations[k].state is Terminated)
            } else {
                v.observations[k].state == StateView::Terminated(
                    Termination::Observed(ExitDisposition::Code(0)),
                )
            },
    ensures
        decided(v, local).stage == InitStageView::Over(InitEnd::Complete),
{
    lifecycle::done_init_leaves_the_app_phase(v.policy, v.observations, Seq::empty());
}

/// Those to be started are taken in order, and only those whose volumes are there. One that was never
/// started is started at once, as a first start; one that was is asked for first.
pub proof fn how_an_init_container_comes_to_be_started(v: InitView, local: Map<KeyView, PodView>)
    requires
        v.fits(),
        0 <= v.at < v.start.len(),
        v.statuses.len() == 0,
        v.mounts[v.start[v.at] as int] is Ok,
    ensures
        ({
            let w = to_act(v, local);
            let i = v.start[v.at] as int;
            &&& w.at == v.at
            &&& match v.before[i] {
                None => init_asks(w) matches InitCallView::Start { old_id, spec } && old_id is None
                    && spec == init_to_start(w) && w.stage->Starting_restart_count == 0,
                Some(rec) => init_asks(w) == (InitCallView::Poll { id: rec.container_id@ }),
            }
        }),
{
}

/// Once all that can be were started, the containers come next where nothing is waited for; otherwise
/// what there is is published.
pub proof fn what_comes_after_the_starts(v: InitView, local: Map<KeyView, PodView>)
    requires
        v.fits(),
        v.at == v.start.len(),
        v.statuses.len() == 0,
    ensures
        v.blocked_on is None ==> to_act(v, local).stage == InitStageView::Over(
            InitEnd::Unblocked,
        ),
        v.blocked_on is Some ==> to_act(v, local).stage is Reporting || to_act(v, local).stage
            == InitStageView::Over(InitEnd::Pending),
{
    to_act_goes_to(v, local);
}

/// What is started is what the manifest says, under the names of the pod, with what it mounts.
pub proof fn what_is_started_of_an_init_container(v: InitView)
    ensures
        ({
            let s = init_to_start(v);
            let first = v.specs[v.start[v.at] as int].1;
            &&& s.name == first.name
            &&& s.image == first.image
            &&& s.env == first.env
            &&& s.command == first.command
            &&& s.pull_policy == first.pull_policy
            &&& s.security_context == first.security_context
            &&& s.resources == first.resources
            &&& s.init_kind == first.init_kind
            &&& s.pod == first.pod
            &&& s.network_aliases == v.aliases
            &&& s.host_add == v.hosts
            &&& v.mounts[v.start[v.at] as int] matches Ok(m) ==> s.mounts == m
        }),
{
}

/// An init container that was started is remembered under its id and as the restart that it was, and
/// nothing else that is remembered changes; one that was not changes nothing.
pub proof fn an_init_start_is_remembered(
    v: InitView,
    local: Map<KeyView, PodView>,
    s: ContainerStatus,
    k: KeyView,
    name: Seq<char>,
)
    requires
        v.well_formed(),
        v.stage is Starting,
    ensures
        ({
            let after = local_after_init_start(v, local, Some(s));
            let own = v.specs[v.start[v.at] as int].0;
            let rec = kubelet::init_record_of(after, v.key, own);
            &&& rec matches Some(r)
            &&& r.container_id == s.container_id@
            &&& r.restart_count == v.stage->Starting_restart_count
            &&& k != v.key || name != own ==> kubelet::init_record_of(after, k, name)
                == kubelet::init_record_of(local, k, name)
            &&& kubelet::record_of(after, k, name) == kubelet::record_of(local, k, name)
            &&& after[v.key].init_complete == (local.dom().contains(v.key)
                && local[v.key].init_complete)
        }),
        local_after_init_start(v, local, None) == local,
{
}

proof fn to_act_counts(v: InitView, local: Map<KeyView, PodView>)
    requires
        v.fits(),
        0 <= v.at <= v.start.len(),
        v.statuses.len() == 0,
        forall|i: int| 0 <= i < v.mounts.len() ==> (#[trigger] v.mounts[i]) is Ok,
    ensures
        to_act(v, local).tally == v.tally,
    decreases v.start.len() - v.at,
{
    if v.at >= v.start.len() && v.blocked_on is Some {
        to_report_goes_to(InitView { at: 0, ..v }, local);
    }
}

/// A start is counted as a change and a failed one as passed over, and the pass goes to the next.
pub proof fn init_starts_are_counted(
    v: InitView,
    local: Map<KeyView, PodView>,
    s: ContainerStatus,
)
    requires
        v.well_formed(),
        v.stage is Starting,
        forall|i: int| 0 <= i < v.mounts.len() ==> (#[trigger] v.mounts[i]) is Ok,
        v.tally.report.objects_changed < usize::MAX,
        v.tally.report.objects_skipped < usize::MAX,
    ensures
        ({
            let done = after_init_start(v, local, Some(s));
            let failed = after_init_start(v, local, None);
            &&& done.tally.report.objects_changed == v.tally.report.objects_changed + 1
            &&& done.tally.report.objects_skipped == v.tally.report.objects_skipped
            &&& failed.tally.report.objects_skipped == v.tally.report.objects_skipped + 1
            &&& failed.tally.report.objects_changed == v.tally.report.objects_changed
            &&& done.pod_ip == if v.pod_ip is Some {
                v.pod_ip
            } else {
                match s.pod_ip {
                    Some(t) => Some(t@),
                    None => None,
                }
            }
            &&& failed.pod_ip == v.pod_ip
        }),
{
    let a = InitView {
        pod_ip: running::first_ip(v.pod_ip, lifecycle::opt_string(s.pod_ip)),
        tally: v.tally.changed(),
        at: v.at + 1,
        ..v
    };
    let b = InitView { tally: v.tally.skipped(), at: v.at + 1, ..v };
    to_act_counts(a, local_after_init_start(v, local, Some(s)));
    to_act_counts(b, local_after_init_start(v, local, None));
    to_act_goes_to(a, local_after_init_start(v, local, Some(s)));
    to_act_goes_to(b, local_after_init_start(v, local, None));
}

/// An init container that is up when it is to be started is not started, and one of which nothing is
/// said is passed over: neither is replaced.
pub proof fn what_is_up_is_not_replaced(
    v: InitView,
    local: Map<KeyView, PodView>,
    s: ContainerStatus,
)
    requires
        v.well_formed(),
        v.stage is Checking,
        s.running,
    ensures
        ({
            let up = after_init_poll(v, local, Poll::Seen(s));
            let unknown = after_init_poll(v, local, Poll::Failed);
            &&& up.stage is Starting || up.stage is Checking ==> up.at > v.at
            &&& unknown.stage is Starting || unknown.stage is Checking ==> unknown.at > v.at
            &&& up.observations == v.observations
            &&& unknown.observations == v.observations
        }),
{
    to_act_goes_to(
        InitView {
            pod_ip: running::first_ip(v.pod_ip, lifecycle::opt_string(s.pod_ip)),
            at: v.at + 1,
            ..v
        },
        local,
    );
    to_act_goes_to(InitView { tally: v.tally.skipped(), at: v.at + 1, ..v }, local);
}

/// What is published of an init container that was started is what the runtime says of it now, under
/// its id and its count; it is never ready. One that was not started is being created.
pub proof fn what_is_published_of_an_init_container(
    v: InitView,
    local: Map<KeyView, PodView>,
    poll: Poll,
    i: int,
)
    requires
        v.well_formed(),
        v.stage is Reporting,
    ensures
        ({
            let w = after_init_poll(v, local, poll);
            let t = w.statuses[v.at];
            &&& w.statuses.len() > v.at
            &&& t.name == v.specs[v.at].0
            &&& !t.ready
            &&& t.container_id == Some(v.stage->Reporting_id)
            &&& t.restart_count == v.stage->Reporting_restart_count
            &&& match poll {
                Poll::Seen(s) => if s.running {
                    t.state is Running
                } else {
                    t.state == StateView::Terminated(
                        match s.exit_code {
                            Some(c) => Termination::Observed(ExitDisposition::Code(c)),
                            None => Termination::Unknown,
                        },
                    )
                },
                _ => t.state is Waiting,
            }
            &&& 0 <= i < v.at ==> w.statuses[i] == v.statuses[i]
            &&& v.at < i < w.statuses.len() ==> {
                &&& w.statuses[i].name == v.specs[i].0
                &&& w.statuses[i].state is Waiting
                &&& !w.statuses[i].ready
                &&& w.statuses[i].container_id is None
                &&& kubelet::init_record_of(local, v.key, v.specs[i].0) is None
            }
            &&& w.stage matches InitStageView::Reporting { id, restart_count } ==> (
            kubelet::init_record_of(local, v.key, v.specs[w.at].0) matches Some(rec) && id
                == rec.container_id && restart_count == rec.restart_count)
        }),
{
    let own = after_init_poll_status(v, poll);
    let n = InitView { statuses: v.statuses.push(own), at: v.at + 1, ..v };
    to_report_goes_to(n, local);
    let w = to_report(n, local);
    assert(w.statuses[v.at] == n.statuses[v.at]);
    if 0 <= i < v.at {
        assert(n.statuses[i] == v.statuses[i]);
    }
    if v.at < i < w.statuses.len() {
        assert(w.statuses[i] == lifecycle::status_of(lifecycle::waiting_view(v.specs[i].0)));
    }
}

spec fn after_init_poll_status(v: InitView, poll: Poll) -> StatusView {
    StatusView {
        name: v.specs[v.at].0,
        ready: false,
        state: match poll {
            Poll::Seen(s) => if s.running {
                StateView::Running
            } else {
                StateView::Terminated(lifecycle::ended_as(s.exit_code))
            },
            _ => StateView::Waiting { reason: "ContainerCreating"@ },
        },
        container_id: Some(v.stage->Reporting_id),
        restart_count: v.stage->Reporting_restart_count,
    }
}

/// That a pod has nothing to wait for any more is remembered of it, and nothing else changes.
pub proof fn being_past_init_is_remembered(
    local: Map<KeyView, PodView>,
    k: KeyView,
    other: KeyView,
    name: Seq<char>,
)
    ensures
        ({
            let after = init_marked(local, k);
            &&& after.dom().contains(k)
            &&& after[k].init_complete
            &&& kubelet::record_of(after, other, name) == kubelet::record_of(local, other, name)
            &&& kubelet::init_record_of(after, other, name) == kubelet::init_record_of(
                local,
                other,
                name,
            )
            &&& other != k ==> after.dom().contains(other) == local.dom().contains(other)
            &&& other != k && local.dom().contains(other) ==> after[other] == local[other]
        }),
{
}

/// A pass is told whole, each part from its own place.
pub proof fn a_pass_is_told_whole(p: InitPass, i: int)
    ensures
        p@.key == p.key@,
        p@.specs == pod_spec::spec_views(p.specs@),
        p@.before == p.before@,
        p@.mounts.len() == p.mounts@.len(),
        0 <= i < p.mounts@.len() ==> match p.mounts@[i] {
            Ok(m) => p@.mounts[i] == Ok::<Seq<ResolvedMount>, Seq<char>>(m@),
            Err(e) => p@.mounts[i] == Err::<Seq<ResolvedMount>, Seq<char>>(e@),
        },
        p@.aliases == text::texts(p.aliases@),
        p@.hosts == text::texts(p.hosts@),
        p@.policy == p.policy,
        p@.at == p.at,
        p@.observations == lifecycle::obs_views(p.observations@),
        p@.start == p.start@,
        p@.blocked_on == p.blocked_on,
        p@.statuses == lifecycle::status_views(p.statuses@),
        p@.tally == p.tally@,
        p.stage matches InitStage::Over(e) ==> p@.stage == InitStageView::Over(e),
        p.stage is Observing <==> p@.stage is Observing,
        p.stage is Checking <==> p@.stage is Checking,
        p.stage is Starting <==> p@.stage is Starting,
        p.stage is Reporting <==> p@.stage is Reporting,
{
}

/// What each stage of a pass asks for: what the runtime says of the container at hand, or that it is
/// started in place of the one that ran before; nothing once it is over.
pub proof fn what_each_init_stage_asks(v: InitView)
    ensures
        v.stage is Observing ==> init_asks(v) == (InitCallView::Poll {
            id: v.before[v.at].unwrap().container_id@,
        }),
        v.stage is Checking ==> init_asks(v) == (InitCallView::Poll {
            id: v.before[v.start[v.at] as int].unwrap().container_id@,
        }),
        v.stage matches InitStageView::Starting { old_id, .. } ==> init_asks(v)
            == (InitCallView::Start { old_id, spec: init_to_start(v) }),
        v.stage matches InitStageView::Reporting { id, .. } ==> init_asks(v)
            == (InitCallView::Poll { id }),
        v.stage is Over ==> init_asks(v) is Finish,
{
}

/// What a pass begins with of an init container is its id and its count, as they are remembered, and
/// nothing exactly where nothing is.
pub proof fn what_an_init_pass_begins_with(
    local: Map<KeyView, PodView>,
    k: KeyView,
    name: Seq<char>,
    r: Option<InitRef>,
)
    requires
        init_remembered(local, k, name, r),
    ensures
        r is None <==> kubelet::init_record_of(local, k, name) is None,
        r matches Some(x) ==> {
            let rec = kubelet::init_record_of(local, k, name).unwrap();
            x.container_id@ == rec.container_id && x.restart_count == rec.restart_count
        },
{
}

} // verus!
