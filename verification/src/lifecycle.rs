//! From what is observed of a pod's containers to the phase of the pod, and to what is done next.

use vstd::prelude::*;
use crate::backend::Readoption;
use crate::cri::{self, ExitDisposition, RunState};
use crate::text::{cat2, clone_opt, debug_of, same};

verus! {

/// The phase of a pod.
#[derive(Clone, Copy, Debug, PartialEq, Eq, Structural)]
pub enum PodPhase {
    Pending,
    Running,
    Succeeded,
    Failed,
    Unknown,
}

/// When an ended container is started again.
#[derive(Clone, Copy, Debug, PartialEq, Eq, Structural)]
pub enum RestartPolicy {
    /// However it ended.
    Always,
    /// Where it did not succeed.
    OnFailure,
    /// Never.
    Never,
}

impl Default for RestartPolicy {
    fn default() -> (r: RestartPolicy)
        ensures
            r == RestartPolicy::Always,
    {
        RestartPolicy::Always
    }
}

/// The policy that a manifest's text names: `Always`, where it names none of the others.
pub open spec fn policy_named(s: Option<Seq<char>>) -> RestartPolicy {
    if s == Some("Never"@) {
        RestartPolicy::Never
    } else if s == Some("OnFailure"@) {
        RestartPolicy::OnFailure
    } else {
        RestartPolicy::Always
    }
}

/// The characters of an optional slice.
pub open spec fn opt_text(s: Option<&str>) -> Option<Seq<char>> {
    match s {
        Some(t) => Some(t@),
        None => None,
    }
}

impl RestartPolicy {
    /// The policy that `spec.restartPolicy` names.
    pub fn from_spec_str(s: Option<&str>) -> (r: RestartPolicy)
        ensures
            r == policy_named(opt_text(s)),
    {
        proof {
            reveal_strlit("Never");
            reveal_strlit("OnFailure");
        }
        match s {
            Some(t) => if same(t, "Never") {
                RestartPolicy::Never
            } else if same(t, "OnFailure") {
                RestartPolicy::OnFailure
            } else {
                RestartPolicy::Always
            },
            None => RestartPolicy::Always,
        }
    }

    /// Whether a container that ended like this is started again.
    pub fn should_restart(self, exit: Termination) -> (r: bool)
        ensures
            r == restarts(self, exit),
    {
        match self {
            RestartPolicy::Always => true,
            RestartPolicy::Never => false,
            RestartPolicy::OnFailure => !exit.is_success(),
        }
    }
}

/// Whether a container that ended like this is started again under the policy.
pub open spec fn restarts(policy: RestartPolicy, exit: Termination) -> bool {
    match policy {
        RestartPolicy::Always => true,
        RestartPolicy::Never => false,
        RestartPolicy::OnFailure => !succeeded(exit),
    }
}

/// How a container ended, as far as it was observed.
#[derive(Clone, Copy, Debug, PartialEq, Eq, Structural)]
pub enum Termination {
    /// The runtime said how.
    Observed(ExitDisposition),
    /// It is down, and nobody saw how it ended.
    Unknown,
}

/// Only an observed exit code zero is a success.
pub open spec fn succeeded(t: Termination) -> bool {
    t == Termination::Observed(ExitDisposition::Code(0))
}

/// The exit code that is published for a termination.
pub open spec fn published_code(t: Termination) -> int {
    match t {
        Termination::Observed(d) => cri::code_of(d),
        Termination::Unknown => 137,
    }
}

/// The reason that is published for a termination.
pub open spec fn published_reason(t: Termination) -> Seq<char> {
    match t {
        Termination::Observed(d) => if succeeded(t) {
            "Completed"@
        } else {
            "Error"@
        },
        Termination::Unknown => "ContainerStatusUnknown"@,
    }
}

/// The termination that a published code and reason stand for.
pub open spec fn read_back(code: Option<i64>, reason: Option<Seq<char>>) -> Termination {
    match code {
        Some(c) => if reason != Some("ContainerStatusUnknown"@) && i32::MIN <= c <= i32::MAX {
            Termination::Observed(ExitDisposition::Code(c as i32))
        } else {
            Termination::Unknown
        },
        None => Termination::Unknown,
    }
}

/// What a runtime's exit code says of a container that is down.
pub open spec fn ended_as(code: Option<i32>) -> Termination {
    match code {
        Some(c) => Termination::Observed(ExitDisposition::Code(c)),
        None => Termination::Unknown,
    }
}

impl Termination {
    /// What a runtime's state says of a container that was started: nothing while it is up.
    pub fn from_run_state(state: RunState) -> (r: Option<Termination>)
        ensures
            r == match state {
                RunState::Running => None,
                RunState::Exited(d) => Some(Termination::Observed(d)),
                _ => Some(Termination::Unknown),
            },
    {
        match state {
            RunState::Running => None,
            RunState::Exited(d) => Some(Termination::Observed(d)),
            RunState::Created | RunState::Unknown => Some(Termination::Unknown),
        }
    }

    /// What a runtime's exit code says of a container that is down: no code is no success.
    pub fn from_exit_code(code: Option<i32>) -> (r: Termination)
        ensures
            r == ended_as(code),
    {
        match code {
            Some(c) => Termination::Observed(ExitDisposition::Code(c)),
            None => Termination::Unknown,
        }
    }

    /// Whether the container succeeded.
    pub fn is_success(self) -> (r: bool)
        ensures
            r == succeeded(self),
    {
        match self {
            Termination::Observed(d) => d.is_success(),
            Termination::Unknown => false,
        }
    }

    /// The exit code to publish.
    pub fn exit_code(self) -> (r: i32)
        ensures
            r == published_code(self),
    {
        match self {
            Termination::Observed(d) => d.exit_code(),
            Termination::Unknown => 137,
        }
    }

    /// The reason to publish.
    pub fn reason(self) -> (r: &'static str)
        ensures
            r@ == published_reason(self),
    {
        match self {
            Termination::Observed(d) => if d.is_success() {
                "Completed"
            } else {
                "Error"
            },
            Termination::Unknown => "ContainerStatusUnknown",
        }
    }

    /// The termination that a published code and reason stand for. What names no readable code is
    /// never read as a success.
    pub fn from_wire(exit_code: Option<i64>, reason: Option<&str>) -> (r: Termination)
        ensures
            r == read_back(exit_code, opt_text(reason)),
    {
        if let Some(t) = reason {
            if same(t, "ContainerStatusUnknown") {
                return Termination::Unknown;
            }
        }
        match exit_code {
            Some(c) => if -0x8000_0000 <= c && c <= 0x7fff_ffff {
                Termination::Observed(ExitDisposition::Code(c as i32))
            } else {
                Termination::Unknown
            },
            None => Termination::Unknown,
        }
    }

    /// The termination in words.
    pub fn to_text(self) -> (r: String)
        ensures
            r@ == match self {
                Termination::Observed(d) => cri::disposition_text(d),
                Termination::Unknown => "unobserved"@,
            },
    {
        match self {
            Termination::Observed(d) => d.to_text(),
            Termination::Unknown => "unobserved".to_owned(),
        }
    }
}

impl From<ExitDisposition> for Termination {
    fn from(d: ExitDisposition) -> (r: Termination) {
        Termination::Observed(d)
    }
}

impl vstd::std_specs::convert::FromSpecImpl<ExitDisposition> for Termination {
    open spec fn obeys_from_spec() -> bool {
        true
    }

    open spec fn from_spec(d: ExitDisposition) -> Termination {
        Termination::Observed(d)
    }
}

/// What a container is doing.
#[derive(Debug, PartialEq, Eq)]
pub enum ContainerState {
    /// It is not up, for this reason.
    Waiting { reason: String },
    /// It is up.
    Running,
    /// It ended, like this.
    Terminated(Termination),
}

/// What a `ContainerState` stands for.
pub enum StateView {
    Waiting { reason: Seq<char> },
    Running,
    Terminated(Termination),
}

impl View for ContainerState {
    type V = StateView;

    open spec fn view(&self) -> StateView {
        match self {
            ContainerState::Waiting { reason } => StateView::Waiting { reason: reason@ },
            ContainerState::Running => StateView::Running,
            ContainerState::Terminated(t) => StateView::Terminated(*t),
        }
    }
}

impl Clone for ContainerState {
    fn clone(&self) -> (r: ContainerState)
        ensures
            r == *self,
    {
        match self {
            ContainerState::Waiting { reason } => ContainerState::Waiting {
                reason: reason.clone(),
            },
            ContainerState::Running => ContainerState::Running,
            ContainerState::Terminated(t) => ContainerState::Terminated(*t),
        }
    }
}

impl ContainerState {
    /// Whether the container is up.
    pub fn is_running(&self) -> (r: bool)
        ensures
            r == (self is Running),
    {
        match self {
            ContainerState::Running => true,
            _ => false,
        }
    }

    /// Whether the container has ended.
    pub fn is_terminated(&self) -> (r: bool)
        ensures
            r == (self is Terminated),
    {
        match self {
            ContainerState::Terminated(_) => true,
            _ => false,
        }
    }

    /// How the container ended, where it has.
    pub fn termination(&self) -> (r: Option<Termination>)
        ensures
            r == match self {
                ContainerState::Terminated(t) => Some(*t),
                _ => None,
            },
    {
        match self {
            ContainerState::Terminated(t) => Some(*t),
            _ => None,
        }
    }

    /// The state of a container that ended like this.
    pub fn terminated(exit: Termination) -> (r: ContainerState)
        ensures
            r == ContainerState::Terminated(exit),
    {
        ContainerState::Terminated(exit)
    }

    /// The state of a container that was not started yet.
    pub fn creating() -> (r: ContainerState)
        ensures
            r@ == (StateView::Waiting { reason: "ContainerCreating"@ }),
    {
        ContainerState::Waiting { reason: "ContainerCreating".to_owned() }
    }
}

/// What kind of init container it is.
#[derive(Clone, Copy, Debug, PartialEq, Eq, Structural)]
pub enum InitKind {
    /// It runs to its end before the next one starts.
    Regular,
    /// It is started, not waited for, and kept up as long as the pod lives.
    Sidecar,
}

impl Default for InitKind {
    fn default() -> (r: InitKind)
        ensures
            r == InitKind::Regular,
    {
        InitKind::Regular
    }
}

/// A restart policy that an init container cannot have.
#[derive(Clone, Debug, PartialEq, Eq)]
pub struct InitKindError(pub String);

impl InitKindError {
    /// The error in words.
    pub fn to_text(&self) -> (r: String)
        ensures
            r@ == init_kind_error_text(self.0@),
    {
        let quoted = debug_of(self.0.as_str());
        cat2(
            "initContainers[].restartPolicy must be absent or \"Always\", got ",
            quoted.as_str(),
        )
    }
}

/// The words for a restart policy that an init container cannot have.
pub open spec fn init_kind_error_text(value: Seq<char>) -> Seq<char> {
    "initContainers[].restartPolicy must be absent or \"Always\", got "@
        + crate::text::debug_text(value)
}

impl InitKind {
    /// The kind that an init container's restart policy makes it. Only `Always` is allowed, and
    /// nothing else falls back to a default.
    pub fn from_spec_str(raw: Option<&str>) -> (r: Result<InitKind, InitKindError>)
        ensures
            match raw {
                None => r == Ok::<InitKind, InitKindError>(InitKind::Regular),
                Some(s) => if s@ == "Always"@ {
                    r == Ok::<InitKind, InitKindError>(InitKind::Sidecar)
                } else {
                    r matches Err(e) && e.0@ == s@
                },
            },
    {
        match raw {
            None => Ok(InitKind::Regular),
            Some(s) => if same(s, "Always") {
                Ok(InitKind::Sidecar)
            } else {
                Err(InitKindError(s.to_owned()))
            },
        }
    }

    /// Whether this is a sidecar.
    pub fn is_sidecar(self) -> (r: bool)
        ensures
            r == (self is Sidecar),
    {
        match self {
            InitKind::Sidecar => true,
            InitKind::Regular => false,
        }
    }
}

/// What was observed of one container.
#[derive(Debug, PartialEq, Eq)]
pub struct ContainerObservation {
    /// The container's name in the manifest.
    pub name: String,
    /// What it is doing.
    pub state: ContainerState,
    /// What the runtime calls it, where it was started.
    pub container_id: Option<String>,
    /// How often it was started again.
    pub restart_count: u32,
    /// Whether it is ready.
    pub ready: bool,
    /// The kind of init container, where it is one.
    pub kind: InitKind,
    /// Whether it was ever started. What it is doing now does not tell.
    pub ever_started: bool,
}

/// What a `ContainerObservation` stands for.
pub struct ObsView {
    pub name: Seq<char>,
    pub state: StateView,
    pub container_id: Option<Seq<char>>,
    pub restart_count: u32,
    pub ready: bool,
    pub kind: InitKind,
    pub ever_started: bool,
}

impl View for ContainerObservation {
    type V = ObsView;

    open spec fn view(&self) -> ObsView {
        ObsView {
            name: self.name@,
            state: self.state@,
            container_id: opt_string(self.container_id),
            restart_count: self.restart_count,
            ready: self.ready,
            kind: self.kind,
            ever_started: self.ever_started,
        }
    }
}

/// What a list of observations stands for.
pub open spec fn obs_views(v: Seq<ContainerObservation>) -> Seq<ObsView> {
    v.map_values(|o: ContainerObservation| o@)
}

/// A container that was not started yet.
pub open spec fn waiting_view(name: Seq<char>) -> ObsView {
    ObsView {
        name,
        state: StateView::Waiting { reason: "ContainerCreating"@ },
        container_id: None,
        restart_count: 0,
        ready: false,
        kind: InitKind::Regular,
        ever_started: false,
    }
}

/// A container that was started and is in this state.
pub open spec fn started_view(
    name: Seq<char>,
    id: Seq<char>,
    restart_count: u32,
    state: StateView,
    ready: bool,
) -> ObsView {
    ObsView {
        name,
        state,
        container_id: Some(id),
        restart_count,
        ready,
        kind: InitKind::Regular,
        ever_started: true,
    }
}

impl ContainerObservation {
    /// A container that is up.
    pub fn running(name: &str, container_id: &str, restart_count: u32) -> (r: ContainerObservation)
        ensures
            r.name@ == name@,
            r.state == ContainerState::Running,
            r.container_id matches Some(id) && id@ == container_id@,
            r.restart_count == restart_count,
            r.ready,
            r.kind == InitKind::Regular,
            r.ever_started,
    {
        ContainerObservation {
            name: name.to_owned(),
            state: ContainerState::Running,
            container_id: Some(container_id.to_owned()),
            restart_count,
            ready: true,
            kind: InitKind::Regular,
            ever_started: true,
        }
    }

    /// A container that ended.
    pub fn terminated(name: &str, container_id: &str, exit: Termination, restart_count: u32) -> (r:
        ContainerObservation)
        ensures
            r.name@ == name@,
            r.state == ContainerState::Terminated(exit),
            r.container_id matches Some(id) && id@ == container_id@,
            r.restart_count == restart_count,
            !r.ready,
            r.kind == InitKind::Regular,
            r.ever_started,
    {
        ContainerObservation {
            name: name.to_owned(),
            state: ContainerState::terminated(exit),
            container_id: Some(container_id.to_owned()),
            restart_count,
            ready: false,
            kind: InitKind::Regular,
            ever_started: true,
        }
    }

    /// A container that ran before and is held back for `reason`.
    pub fn backing_off(name: &str, container_id: &str, reason: &str, restart_count: u32) -> (r:
        ContainerObservation)
        ensures
            r.name@ == name@,
            r.state@ == (StateView::Waiting { reason: reason@ }),
            r.container_id matches Some(id) && id@ == container_id@,
            r.restart_count == restart_count,
            !r.ready,
            r.kind == InitKind::Regular,
            r.ever_started,
    {
        ContainerObservation {
            name: name.to_owned(),
            state: ContainerState::Waiting { reason: reason.to_owned() },
            container_id: Some(container_id.to_owned()),
            restart_count,
            ready: false,
            kind: InitKind::Regular,
            ever_started: true,
        }
    }

    /// A container that was not started yet.
    pub fn waiting(name: &str) -> (r: ContainerObservation)
        ensures
            r.name@ == name@,
            r.state@ == (StateView::Waiting { reason: "ContainerCreating"@ }),
            r.container_id is None,
            r.restart_count == 0,
            !r.ready,
            r.kind == InitKind::Regular,
            !r.ever_started,
    {
        ContainerObservation {
            name: name.to_owned(),
            state: ContainerState::creating(),
            container_id: None,
            restart_count: 0,
            ready: false,
            kind: InitKind::Regular,
            ever_started: false,
        }
    }

    /// The same observation, of a sidecar.
    pub fn as_sidecar(self) -> (r: ContainerObservation)
        ensures
            r == (ContainerObservation { kind: InitKind::Sidecar, ..self }),
    {
        let mut out = self;
        out.kind = InitKind::Sidecar;
        out
    }

    /// The same observation, of a container that was or was not ever started.
    pub fn with_ever_started(self, ever_started: bool) -> (r: ContainerObservation)
        ensures
            r == (ContainerObservation { ever_started, ..self }),
    {
        let mut out = self;
        out.ever_started = ever_started;
        out
    }
}

/// What is published of one container.
#[derive(Debug, PartialEq, Eq)]
pub struct ContainerStatusOut {
    pub name: String,
    pub ready: bool,
    pub state: ContainerState,
    pub container_id: Option<String>,
    pub restart_count: u32,
}

/// What a `ContainerStatusOut` stands for.
pub struct StatusView {
    pub name: Seq<char>,
    pub ready: bool,
    pub state: StateView,
    pub container_id: Option<Seq<char>>,
    pub restart_count: u32,
}

/// The characters of an optional string.
pub open spec fn opt_string(s: Option<String>) -> Option<Seq<char>> {
    match s {
        Some(t) => Some(t@),
        None => None,
    }
}

impl View for ContainerStatusOut {
    type V = StatusView;

    open spec fn view(&self) -> StatusView {
        StatusView {
            name: self.name@,
            ready: self.ready,
            state: self.state@,
            container_id: opt_string(self.container_id),
            restart_count: self.restart_count,
        }
    }
}

/// What a list of statuses stands for.
pub open spec fn status_views(v: Seq<ContainerStatusOut>) -> Seq<StatusView> {
    v.map_values(|s: ContainerStatusOut| s@)
}

/// What is published of a container that was observed like this.
pub open spec fn status_of(o: ObsView) -> StatusView {
    StatusView {
        name: o.name,
        ready: o.ready,
        state: o.state,
        container_id: o.container_id,
        restart_count: o.restart_count,
    }
}

/// What is published of each container.
pub open spec fn statuses_of(obs: Seq<ObsView>) -> Seq<StatusView> {
    obs.map_values(|o: ObsView| status_of(o))
}

/// What is published of each container.
pub fn observed_statuses(observations: &[ContainerObservation]) -> (r: Vec<ContainerStatusOut>)
    ensures
        status_views(r@) == statuses_of(obs_views(observations@)),
{
    let mut out: Vec<ContainerStatusOut> = Vec::new();
    let mut i: usize = 0;
    while i < observations.len()
        invariant
            i <= observations@.len(),
            status_views(out@) =~= statuses_of(obs_views(observations@)).take(i as int),
        decreases observations@.len() - i,
    {
        let o = &observations[i];
        let s = ContainerStatusOut {
            name: o.name.clone(),
            ready: o.ready,
            state: o.state.clone(),
            container_id: clone_opt(&o.container_id),
            restart_count: o.restart_count,
        };
        assert(s@ == status_of(o@));
        let ghost was = out@;
        out.push(s);
        assert(status_views(out@) =~= status_views(was).push(s@));
        assert(statuses_of(obs_views(observations@))[i as int] == status_of(o@));
        i += 1;
    }
    assert(statuses_of(obs_views(observations@)).take(i as int) =~= statuses_of(
        obs_views(observations@),
    ));
    out
}

/// The container waits and was never started.
pub open spec fn never_started(o: ObsView) -> bool {
    o.state is Waiting && !o.ever_started
}

/// The container waits and ran before.
pub open spec fn backs_off(o: ObsView) -> bool {
    o.state is Waiting && o.ever_started
}

/// The container ended and is started again under the policy.
pub open spec fn restartable(policy: RestartPolicy, o: ObsView) -> bool {
    o.state matches StateView::Terminated(t) && restarts(policy, t)
}

/// The container ended and succeeded.
pub open spec fn ended_well(o: ObsView) -> bool {
    o.state matches StateView::Terminated(t) && succeeded(t)
}

/// The phase of a pod whose containers were observed like this.
///
/// - A pod without containers, or with one that was never started, is pending.
/// - A pod with a container that is up, that is about to be started again, or that is held back
///   under a policy that restarts, is running.
/// - Of the others, a pod all of whose containers succeeded has succeeded, and every other failed.
pub open spec fn phase_of(policy: RestartPolicy, obs: Seq<ObsView>) -> PodPhase {
    if obs.len() == 0 || exists|i: int| 0 <= i < obs.len() && never_started(#[trigger] obs[i]) {
        PodPhase::Pending
    } else if exists|i: int|
        0 <= i < obs.len() && ((#[trigger] obs[i]).state is Running || restartable(policy, obs[i])
            || (backs_off(obs[i]) && policy != RestartPolicy::Never)) {
        PodPhase::Running
    } else if forall|i: int| 0 <= i < obs.len() ==> ended_well(#[trigger] obs[i]) {
        PodPhase::Succeeded
    } else {
        PodPhase::Failed
    }
}

/// The phase of a pod, and what is published of each of its containers.
pub fn reconcile_pod_phase(restart_policy: RestartPolicy, observations: &[ContainerObservation]) -> (
r: (PodPhase, Vec<ContainerStatusOut>))
    ensures
        r.0 == phase_of(restart_policy, obs_views(observations@)),
        status_views(r.1@) == statuses_of(obs_views(observations@)),
{
    let statuses = observed_statuses(observations);
    let ghost obs = obs_views(observations@);
    let mut any_never_started = false;
    let mut any_live = false;
    let mut all_succeeded = true;
    let mut i: usize = 0;
    while i < observations.len()
        invariant
            i <= observations@.len(),
            obs == obs_views(observations@),
            any_never_started == exists|k: int|
                0 <= k < i && never_started(#[trigger] obs[k]),
            any_live == exists|k: int|
                0 <= k < i && ((#[trigger] obs[k]).state is Running || restartable(
                    restart_policy,
                    obs[k],
                ) || (backs_off(obs[k]) && restart_policy != RestartPolicy::Never)),
            all_succeeded == forall|k: int|
                0 <= k < i ==> ended_well(#[trigger] obs[k]),
        decreases observations@.len() - i,
    {
        let o = &observations[i];
        match &o.state {
            ContainerState::Waiting { .. } => {
                if !o.ever_started {
                    any_never_started = true;
                } else if restart_policy != RestartPolicy::Never {
                    any_live = true;
                }
                all_succeeded = false;
            },
            ContainerState::Running => {
                any_live = true;
                all_succeeded = false;
            },
            ContainerState::Terminated(exit) => {
                if restart_policy.should_restart(*exit) {
                    any_live = true;
                }
                if !exit.is_success() {
                    all_succeeded = false;
                }
            },
        }
        assert(obs[i as int] == o@);
        i += 1;
    }
    let phase = if observations.len() == 0 || any_never_started {
        PodPhase::Pending
    } else if any_live {
        PodPhase::Running
    } else if all_succeeded {
        PodPhase::Succeeded
    } else {
        PodPhase::Failed
    };
    (phase, statuses)
}

/// What is to be done about a pod's init containers.
#[derive(Debug, PartialEq, Eq)]
pub enum InitAction {
    /// The containers at `start` must be started; where `blocked_on` names one, nothing behind it
    /// starts before it succeeds.
    AwaitInit { start: Vec<usize>, blocked_on: Option<usize> },
    /// The container at `index` ended like this and is not started again: the pod failed.
    InitFailed { index: usize, exit: Termination },
    /// There is nothing left to wait for.
    Complete,
}

/// What an `InitAction` stands for.
pub enum InitStep {
    AwaitInit { start: Seq<usize>, blocked_on: Option<usize> },
    InitFailed { index: usize, exit: Termination },
    Complete,
}

impl View for InitAction {
    type V = InitStep;

    open spec fn view(&self) -> InitStep {
        match self {
            InitAction::AwaitInit { start, blocked_on } => InitStep::AwaitInit {
                start: start@,
                blocked_on: *blocked_on,
            },
            InitAction::InitFailed { index, exit } => InitStep::InitFailed {
                index: *index,
                exit: *exit,
            },
            InitAction::Complete => InitStep::Complete,
        }
    }
}

impl InitAction {
    /// Whether the app containers may start.
    pub fn is_complete(&self) -> (r: bool)
        ensures
            r == (self@ is Complete),
    {
        match self {
            InitAction::Complete => true,
            _ => false,
        }
    }

    /// Whether the pod failed before its app containers started.
    pub fn is_failed(&self) -> (r: bool)
        ensures
            r == (self@ is InitFailed),
    {
        match self {
            InitAction::InitFailed { .. } => true,
            _ => false,
        }
    }
}

/// An init container that nothing waits for: a sidecar, or one that succeeded.
pub open spec fn passes(o: ObsView) -> bool {
    o.kind is Sidecar || ended_well(o)
}

/// A sidecar that must be started: it never was, or it ended.
pub open spec fn sidecar_due(o: ObsView) -> bool {
    o.kind is Sidecar && (!o.ever_started || o.state is Terminated)
}

/// The first init container, from `i` on, that the others wait for.
pub open spec fn gate(obs: Seq<ObsView>, i: int) -> Option<int>
    decreases obs.len() - i,
{
    if i < 0 || i >= obs.len() {
        None
    } else if passes(obs[i]) {
        gate(obs, i + 1)
    } else {
        Some(i)
    }
}

/// The places of the sidecars that must be started among the first `n` init containers.
pub open spec fn due(obs: Seq<ObsView>, n: int) -> Seq<usize>
    decreases n,
{
    if n <= 0 {
        Seq::empty()
    } else if sidecar_due(obs[n - 1]) {
        due(obs, n - 1).push((n - 1) as usize)
    } else {
        due(obs, n - 1)
    }
}

/// What is to be done about init containers that were observed like this.
pub open spec fn init_step(policy: RestartPolicy, obs: Seq<ObsView>) -> InitStep {
    match gate(obs, 0) {
        None => if due(obs, obs.len() as int).len() == 0 {
            InitStep::Complete
        } else {
            InitStep::AwaitInit { start: due(obs, obs.len() as int), blocked_on: None }
        },
        Some(g) => match obs[g].state {
            StateView::Running => InitStep::AwaitInit {
                start: due(obs, g),
                blocked_on: Some(g as usize),
            },
            StateView::Waiting { .. } => InitStep::AwaitInit {
                start: due(obs, g).push(g as usize),
                blocked_on: Some(g as usize),
            },
            StateView::Terminated(exit) => if restarts(policy, exit) {
                InitStep::AwaitInit {
                    start: due(obs, g).push(g as usize),
                    blocked_on: Some(g as usize),
                }
            } else {
                InitStep::InitFailed { index: g as usize, exit }
            },
        },
    }
}

/// What is to be done next about the init containers.
pub fn next_init_action(restart_policy: RestartPolicy, init_observations: &[ContainerObservation]) -> (
r: InitAction)
    ensures
        r@ == init_step(restart_policy, obs_views(init_observations@)),
{
    let ghost obs = obs_views(init_observations@);
    let mut start: Vec<usize> = Vec::new();
    let mut i: usize = 0;
    while i < init_observations.len()
        invariant
            i <= obs.len(),
            obs == obs_views(init_observations@),
            start@ == due(obs, i as int),
            gate(obs, 0) == gate(obs, i as int),
        decreases obs.len() - i,
    {
        let o = &init_observations[i];
        assert(obs[i as int] == o@);
        if o.kind.is_sidecar() {
            if !o.ever_started || o.state.is_terminated() {
                start.push(i);
            }
        } else {
            match &o.state {
                ContainerState::Terminated(exit) => {
                    if !exit.is_success() {
                        return if restart_policy.should_restart(*exit) {
                            start.push(i);
                            InitAction::AwaitInit { start, blocked_on: Some(i) }
                        } else {
                            InitAction::InitFailed { index: i, exit: *exit }
                        };
                    }
                },
                ContainerState::Running => {
                    return InitAction::AwaitInit { start, blocked_on: Some(i) };
                },
                ContainerState::Waiting { .. } => {
                    start.push(i);
                    return InitAction::AwaitInit { start, blocked_on: Some(i) };
                },
            }
        }
        i += 1;
    }
    if start.len() == 0 {
        InitAction::Complete
    } else {
        InitAction::AwaitInit { start, blocked_on: None }
    }
}

/// The phase of a pod with init containers: the app containers decide it once those are done.
pub open spec fn phase_with_init(
    policy: RestartPolicy,
    init: Seq<ObsView>,
    app: Seq<ObsView>,
) -> PodPhase {
    match init_step(policy, init) {
        InitStep::Complete => phase_of(policy, app),
        InitStep::InitFailed { .. } => PodPhase::Failed,
        InitStep::AwaitInit { .. } => PodPhase::Pending,
    }
}

/// The phase of a pod with init containers, what is published of the init and of the app
/// containers, and whether the init containers are done.
pub fn reconcile_pod_phase_with_init(
    restart_policy: RestartPolicy,
    init_observations: &[ContainerObservation],
    app_observations: &[ContainerObservation],
) -> (r: (PodPhase, Vec<ContainerStatusOut>, Vec<ContainerStatusOut>, bool))
    ensures
        r.0 == phase_with_init(
            restart_policy,
            obs_views(init_observations@),
            obs_views(app_observations@),
        ),
        status_views(r.1@) == statuses_of(obs_views(init_observations@)),
        status_views(r.2@) == statuses_of(obs_views(app_observations@)),
        r.3 == (init_step(restart_policy, obs_views(init_observations@)) is Complete),
{
    let init_statuses = observed_statuses(init_observations);
    match next_init_action(restart_policy, init_observations) {
        InitAction::Complete => {
            let (phase, app_statuses) = reconcile_pod_phase(restart_policy, app_observations);
            (phase, init_statuses, app_statuses, true)
        },
        InitAction::InitFailed { .. } => (
            PodPhase::Failed,
            init_statuses,
            observed_statuses(app_observations),
            false,
        ),
        InitAction::AwaitInit { .. } => (
            PodPhase::Pending,
            init_statuses,
            observed_statuses(app_observations),
            false,
        ),
    }
}

/// An earlier run of a container, as it was published.
#[derive(Clone, Debug, PartialEq, Eq)]
pub struct StoredRun {
    pub container_id: Option<String>,
    pub restart_count: u32,
}

/// A container as it was last published.
#[derive(Clone, Debug, PartialEq, Eq)]
pub enum StoredContainer {
    /// No run of it was published.
    NotStarted { name: String },
    /// It was up, or held back between two runs.
    Up { name: String, run: StoredRun },
    /// It had ended, like this.
    Ended { name: String, run: StoredRun, exit: Termination },
}

/// The name of a published container.
pub open spec fn stored_name(c: StoredContainer) -> Seq<char> {
    match c {
        StoredContainer::NotStarted { name } => name@,
        StoredContainer::Up { name, .. } => name@,
        StoredContainer::Ended { name, .. } => name@,
    }
}

/// The published run of a container.
pub open spec fn stored_run(c: StoredContainer) -> Option<StoredRun> {
    match c {
        StoredContainer::NotStarted { .. } => None,
        StoredContainer::Up { run, .. } => Some(run),
        StoredContainer::Ended { run, .. } => Some(run),
    }
}

/// What is published of a container of a pod that is not run again: a run whose end nobody saw
/// ended in an unknown way.
pub open spec fn lost_view(c: StoredContainer) -> StatusView {
    StatusView {
        name: stored_name(c),
        ready: false,
        state: match c {
            StoredContainer::NotStarted { .. } => StateView::Waiting {
                reason: "ContainerCreating"@,
            },
            StoredContainer::Up { .. } => StateView::Terminated(Termination::Unknown),
            StoredContainer::Ended { exit, .. } => StateView::Terminated(exit),
        },
        container_id: match stored_run(c) {
            Some(run) => opt_string(run.container_id),
            None => None,
        },
        restart_count: match stored_run(c) {
            Some(run) => run.restart_count,
            None => 0,
        },
    }
}

impl StoredContainer {
    /// The container's name.
    pub fn name(&self) -> (r: &str)
        ensures
            r@ == stored_name(*self),
    {
        match self {
            StoredContainer::NotStarted { name } => name.as_str(),
            StoredContainer::Up { name, .. } => name.as_str(),
            StoredContainer::Ended { name, .. } => name.as_str(),
        }
    }

    /// The published run, where there was one.
    pub fn run(&self) -> (r: Option<&StoredRun>)
        ensures
            match r {
                Some(run) => stored_run(*self) == Some(*run),
                None => stored_run(*self) is None,
            },
    {
        match self {
            StoredContainer::NotStarted { .. } => None,
            StoredContainer::Up { run, .. } => Some(run),
            StoredContainer::Ended { run, .. } => Some(run),
        }
    }

    /// What is published of the container where the pod is not run again.
    pub fn lost_status(&self) -> (r: ContainerStatusOut)
        ensures
            r@ == lost_view(*self),
    {
        let state = match self {
            StoredContainer::NotStarted { .. } => ContainerState::creating(),
            StoredContainer::Up { .. } => ContainerState::terminated(Termination::Unknown),
            StoredContainer::Ended { exit, .. } => ContainerState::terminated(*exit),
        };
        let (container_id, restart_count): (Option<String>, u32) = match self.run() {
            Some(run) => (clone_opt(&run.container_id), run.restart_count),
            None => (None, 0),
        };
        ContainerStatusOut {
            name: self.name().to_owned(),
            ready: false,
            state,
            container_id,
            restart_count,
        }
    }
}

/// What to do with a pod whose local record is gone.
#[derive(Debug, PartialEq, Eq)]
pub enum LostPod {
    /// Nothing was up, so nothing was lost.
    NothingLost,
    /// It is started again, and each container that had run counts a restart.
    Restart,
    /// It is not run again and failed, with these statuses.
    Failed(Vec<ContainerStatusOut>),
}

/// What is to be done with a pod whose containers were last published like this, on a runtime
/// that cannot take over what was up.
pub fn reconcile_lost_pod(restart_policy: RestartPolicy, stored: &[StoredContainer]) -> (r: LostPod)
    ensures
        if !(exists|i: int| 0 <= i < stored@.len() && (#[trigger] stored@[i]) is Up) {
            r is NothingLost
        } else if restart_policy != RestartPolicy::Never {
            r is Restart
        } else {
            r matches LostPod::Failed(statuses) && statuses@.len() == stored@.len() && forall|
                i: int,
            |
                0 <= i < stored@.len() ==> (#[trigger] statuses@[i])@ == lost_view(stored@[i])
        },
{
    let mut any_up = false;
    let mut i: usize = 0;
    while i < stored.len()
        invariant
            i <= stored@.len(),
            any_up == exists|k: int| 0 <= k < i && (#[trigger] stored@[k]) is Up,
        decreases stored@.len() - i,
    {
        match &stored[i] {
            StoredContainer::Up { .. } => {
                any_up = true;
                assert(stored@[i as int] is Up);
            },
            _ => {},
        }
        i += 1;
    }
    if !any_up {
        return LostPod::NothingLost;
    }
    if restart_policy.should_restart(Termination::Unknown) {
        return LostPod::Restart;
    }
    let mut statuses: Vec<ContainerStatusOut> = Vec::new();
    let mut j: usize = 0;
    while j < stored.len()
        invariant
            j <= stored@.len(),
            statuses@.len() == j,
            forall|k: int| 0 <= k < j ==> (#[trigger] statuses@[k])@ == lost_view(stored@[k]),
        decreases stored@.len() - j,
    {
        statuses.push(stored[j].lost_status());
        j += 1;
    }
    LostPod::Failed(statuses)
}

/// How a container that was just started relates to its published run.
#[derive(Clone, Copy, Debug, PartialEq, Eq, Structural)]
pub enum StartedAs {
    /// There was none.
    Fresh,
    /// It is the same run.
    Adopted { restart_count: u32 },
    /// It follows a run whose end was not seen.
    Restarted { restart_count: u32 },
}

/// How the container `started_id` relates to the run `prior`. The same name is the same run only
/// on a runtime that takes over what is up.
pub open spec fn started_as(
    prior: Option<StoredRun>,
    started_id: Seq<char>,
    readoption: Readoption,
) -> StartedAs {
    match prior {
        None => StartedAs::Fresh,
        Some(run) => if readoption == Readoption::AdoptsRunning && opt_string(run.container_id)
            == Some(started_id) {
            StartedAs::Adopted { restart_count: run.restart_count }
        } else if run.restart_count == u32::MAX {
            StartedAs::Restarted { restart_count: u32::MAX }
        } else {
            StartedAs::Restarted { restart_count: (run.restart_count + 1) as u32 }
        },
    }
}

impl StartedAs {
    /// How the container `started_id` relates to the run `prior`.
    pub fn of(prior: Option<&StoredRun>, started_id: &str, readoption: Readoption) -> (r: StartedAs)
        ensures
            r == started_as(
                match prior {
                    Some(run) => Some(*run),
                    None => None,
                },
                started_id@,
                readoption,
            ),
    {
        match prior {
            None => StartedAs::Fresh,
            Some(run) => {
                let adopted = match &run.container_id {
                    Some(id) => readoption == Readoption::AdoptsRunning && same(
                        id.as_str(),
                        started_id,
                    ),
                    None => false,
                };
                if adopted {
                    StartedAs::Adopted { restart_count: run.restart_count }
                } else {
                    StartedAs::Restarted { restart_count: run.restart_count.saturating_add(1) }
                }
            },
        }
    }

    /// The number of restarts that the new record begins with.
    pub fn restart_count(self) -> (r: u32)
        ensures
            r == match self {
                StartedAs::Fresh => 0,
                StartedAs::Adopted { restart_count } => restart_count,
                StartedAs::Restarted { restart_count } => restart_count,
            },
    {
        match self {
            StartedAs::Fresh => 0,
            StartedAs::Adopted { restart_count } => restart_count,
            StartedAs::Restarted { restart_count } => restart_count,
        }
    }
}

// ---- laws ----------------------------------------------------------------------------------

/// A container that was never started keeps the pod pending, whatever the others do.
pub proof fn never_started_is_pending(
    policy: RestartPolicy,
    obs: Seq<ObsView>,
    i: int,
)
    requires
        0 <= i < obs.len(),
        never_started(obs[i]),
    ensures
        phase_of(policy, obs) == PodPhase::Pending,
{
}

/// Under `Always` a pod never ends.
pub proof fn always_never_ends(obs: Seq<ObsView>)
    ensures
        phase_of(RestartPolicy::Always, obs) == PodPhase::Pending || phase_of(
            RestartPolicy::Always,
            obs,
        ) == PodPhase::Running,
{
    if obs.len() > 0 {
        assert(never_started(obs[0]) || obs[0].state is Running || restartable(
            RestartPolicy::Always,
            obs[0],
        ) || backs_off(obs[0]));
    }
}

/// Under `Always` a pod all of whose containers were started runs, however they ended.
pub proof fn always_runs_once_started(obs: Seq<ObsView>)
    requires
        obs.len() > 0,
        forall|i: int| 0 <= i < obs.len() ==> !((#[trigger] obs[i]).state is Waiting),
    ensures
        phase_of(RestartPolicy::Always, obs) == PodPhase::Running,
{
    assert(obs[0].state is Running || restartable(RestartPolicy::Always, obs[0]));
}

/// Under `Never` a pod all of whose containers ended has ended, and it succeeded exactly where
/// all of them did.
pub proof fn never_ends_with_its_containers(obs: Seq<ObsView>)
    requires
        obs.len() > 0,
        forall|i: int| 0 <= i < obs.len() ==> (#[trigger] obs[i]).state is Terminated,
    ensures
        phase_of(RestartPolicy::Never, obs) == if forall|i: int|
            0 <= i < obs.len() ==> ended_well(#[trigger] obs[i]) {
            PodPhase::Succeeded
        } else {
            PodPhase::Failed
        },
{
}

/// A pod with a container that did not end well has not succeeded, under any policy: no exit that
/// was not seen, and no signal, counts as a success.
pub proof fn success_needs_every_container(
    policy: RestartPolicy,
    obs: Seq<ObsView>,
    i: int,
)
    requires
        0 <= i < obs.len(),
        !ended_well(obs[i]),
    ensures
        phase_of(policy, obs) != PodPhase::Succeeded,
{
}

/// A container that is held back and ran before keeps the pod running under a policy that
/// restarts, as long as every container was started.
pub proof fn backing_off_is_running(
    policy: RestartPolicy,
    obs: Seq<ObsView>,
    i: int,
)
    requires
        0 <= i < obs.len(),
        backs_off(obs[i]),
        policy != RestartPolicy::Never,
        forall|k: int| 0 <= k < obs.len() ==> !never_started(#[trigger] obs[k]),
    ensures
        phase_of(policy, obs) == PodPhase::Running,
{
}

/// Without init containers the app containers alone decide, at once.
pub proof fn no_init_is_the_app_phase(policy: RestartPolicy, app: Seq<ObsView>)
    ensures
        init_step(policy, Seq::empty()) == InitStep::Complete,
        phase_with_init(policy, Seq::empty(), app) == phase_of(policy, app),
{
}

proof fn gate_is_no_sidecar(obs: Seq<ObsView>, i: int)
    requires
        0 <= i,
    ensures
        match gate(obs, i) {
            Some(g) => i <= g < obs.len() && !passes(obs[g]) && forall|k: int|
                i <= k < g ==> passes(#[trigger] obs[k]),
            None => forall|k: int| i <= k < obs.len() ==> passes(#[trigger] obs[k]),
        },
    decreases obs.len() - i,
{
    if i < obs.len() && passes(obs[i]) {
        gate_is_no_sidecar(obs, i + 1);
    }
}

proof fn due_bounds(obs: Seq<ObsView>, n: int)
    requires
        0 <= n <= obs.len() <= usize::MAX,
    ensures
        forall|k: int|
            0 <= k < due(obs, n).len() ==> (#[trigger] due(obs, n)[k]) < n && sidecar_due(
                obs[due(obs, n)[k] as int],
            ),
    decreases n,
{
    if n > 0 {
        due_bounds(obs, n - 1);
        let before = due(obs, n - 1);
        assert forall|k: int| 0 <= k < due(obs, n).len() implies (#[trigger] due(obs, n)[k]) < n
            && sidecar_due(obs[due(obs, n)[k] as int]) by {
            if k < before.len() {
                assert(due(obs, n)[k] == before[k]);
            }
        }
    }
}

/// A sidecar never blocks the sequence and never fails the pod, whatever it did and whatever the
/// policy.
pub proof fn sidecars_never_block(policy: RestartPolicy, obs: Seq<ObsView>)
    requires
        obs.len() <= usize::MAX,
    ensures
        match init_step(policy, obs) {
            InitStep::AwaitInit { blocked_on, .. } => blocked_on matches Some(g) ==> g < obs.len()
                && !(obs[g as int].kind is Sidecar),
            InitStep::InitFailed { index, exit } => index < obs.len() && !(
            obs[index as int].kind is Sidecar) && !succeeded(exit),
            InitStep::Complete => true,
        },
{
    gate_is_no_sidecar(obs, 0);
}

/// Init containers run one at a time and in order: of those that are not sidecars only the first
/// that has not succeeded is ever started.
pub proof fn one_init_at_a_time(policy: RestartPolicy, obs: Seq<ObsView>, k: int)
    requires
        obs.len() <= usize::MAX,
        init_step(policy, obs) is AwaitInit,
        0 <= k < init_step(policy, obs)->start.len(),
    ensures
        ({
            let i = init_step(policy, obs)->start[k] as int;
            &&& 0 <= i < obs.len()
            &&& obs[i].kind is Sidecar || (init_step(policy, obs)->blocked_on == Some(i as usize)
                && forall|j: int| 0 <= j < i ==> passes(#[trigger] obs[j]))
        }),
{
    gate_is_no_sidecar(obs, 0);
    match gate(obs, 0) {
        Some(g) => {
            due_bounds(obs, g);
            if k < due(obs, g).len() {
                assert(sidecar_due(obs[due(obs, g)[k] as int]));
            }
        },
        None => {
            due_bounds(obs, obs.len() as int);
            assert(sidecar_due(obs[due(obs, obs.len() as int)[k] as int]));
        },
    }
}

/// The app containers start only when every init container that is no sidecar has succeeded.
pub proof fn complete_means_succeeded(
    policy: RestartPolicy,
    obs: Seq<ObsView>,
    i: int,
)
    requires
        init_step(policy, obs) == InitStep::Complete,
        0 <= i < obs.len(),
    ensures
        obs[i].kind is Sidecar || ended_well(obs[i]),
{
    gate_is_no_sidecar(obs, 0);
    assert(passes(obs[i]));
}

/// What is published of a termination reads back with the same code and reason, and as a success
/// exactly where it was one. (Signal -128, which no process is ever sent, would be published with
/// code zero.)
pub proof fn wire_round_trip(t: Termination)
    requires
        !(t matches Termination::Observed(ExitDisposition::Signal(s)) && s == -128),
    ensures
        ({
            let back = read_back(Some(published_code(t) as i64), Some(published_reason(t)));
            &&& succeeded(back) == succeeded(t)
            &&& published_code(back) == published_code(t)
            &&& published_reason(back) == published_reason(t)
        }),
{
    reveal_strlit("Completed");
    reveal_strlit("Error");
    reveal_strlit("ContainerStatusUnknown");
    assert("Completed"@.len() != "ContainerStatusUnknown"@.len());
    assert("Error"@.len() != "ContainerStatusUnknown"@.len());
}

/// A code that is absent or out of range never reads back as a success.
pub proof fn unreadable_is_no_success(code: Option<i64>, reason: Option<Seq<char>>)
    requires
        code matches Some(c) ==> c < i32::MIN || c > i32::MAX,
    ensures
        read_back(code, reason) == Termination::Unknown,
        !succeeded(read_back(code, reason)),
{
}

/// On a runtime that cannot take over what is up, every start over a published run counts as a
/// restart, even under the same name.
pub proof fn lost_runs_count(run: StoredRun, started_id: Seq<char>)
    ensures
        started_as(Some(run), started_id, Readoption::Cannot) is Restarted,
{
}

/// A pod is pending exactly where it has no container, or one that waits and never ran.
pub proof fn pending_means_not_begun(policy: RestartPolicy, obs: Seq<ObsView>)
    ensures
        phase_of(policy, obs) is Pending <==> obs.len() == 0 || exists|i: int|
            0 <= i < obs.len() && (#[trigger] obs[i]).state is Waiting && !obs[i].ever_started,
{
    if exists|i: int|
        0 <= i < obs.len() && (#[trigger] obs[i]).state is Waiting && !obs[i].ever_started {
        let i = choose|i: int|
            0 <= i < obs.len() && (#[trigger] obs[i]).state is Waiting && !obs[i].ever_started;
        assert(never_started(obs[i]));
    }
}

/// A pod none of whose containers waits for its first start runs as long as one of them is up, in
/// whatever state the others are and under every policy.
pub proof fn one_that_is_up_keeps_the_pod_running(
    policy: RestartPolicy,
    obs: Seq<ObsView>,
    i: int,
)
    requires
        0 <= i < obs.len(),
        obs[i].state is Running,
        forall|k: int|
            0 <= k < obs.len() && (#[trigger] obs[k]).state is Waiting ==> obs[k].ever_started,
    ensures
        phase_of(policy, obs) is Running,
{
    assert(forall|k: int| 0 <= k < obs.len() ==> !never_started(#[trigger] obs[k]));
}

/// A pod that was begun runs as long as one of its containers is to be started over: each is under
/// `Always`, and each that did not exit with zero is under `OnFailure`.
pub proof fn one_to_start_over_keeps_the_pod_running(
    policy: RestartPolicy,
    obs: Seq<ObsView>,
    i: int,
)
    requires
        0 <= i < obs.len(),
        policy is Always || (policy is OnFailure && obs[i].state != StateView::Terminated(
            Termination::Observed(ExitDisposition::Code(0)),
        )),
        forall|k: int|
            0 <= k < obs.len() && (#[trigger] obs[k]).state is Waiting ==> obs[k].ever_started,
    ensures
        phase_of(policy, obs) is Running,
{
    assert(forall|k: int| 0 <= k < obs.len() ==> !never_started(#[trigger] obs[k]));
    assert(obs[i].state is Running || restartable(policy, obs[i]) || backs_off(obs[i]));
}

/// A pod whose containers all exited with zero has succeeded, but under `Always`.
pub proof fn all_done_is_success(policy: RestartPolicy, obs: Seq<ObsView>)
    requires
        obs.len() > 0,
        !(policy is Always),
        forall|i: int|
            0 <= i < obs.len() ==> (#[trigger] obs[i]).state == StateView::Terminated(
                Termination::Observed(ExitDisposition::Code(0)),
            ),
    ensures
        phase_of(policy, obs) is Succeeded,
{
}

/// Under `Never` a pod that was begun and of which nothing is up has failed, where one of its
/// containers did not exit with zero.
pub proof fn one_failure_fails_the_pod_under_never(obs: Seq<ObsView>, i: int)
    requires
        0 <= i < obs.len(),
        obs[i].state != StateView::Terminated(Termination::Observed(ExitDisposition::Code(0))),
        forall|k: int| 0 <= k < obs.len() ==> !((#[trigger] obs[k]).state is Running),
        forall|k: int|
            0 <= k < obs.len() && (#[trigger] obs[k]).state is Waiting ==> obs[k].ever_started,
    ensures
        phase_of(RestartPolicy::Never, obs) is Failed,
{
    assert(forall|k: int| 0 <= k < obs.len() ==> !never_started(#[trigger] obs[k]));
    assert(!ended_well(obs[i]));
}

/// The phase does not depend on the order of the containers.
pub proof fn two_containers_may_change_places(
    policy: RestartPolicy,
    obs: Seq<ObsView>,
    i: int,
    j: int,
)
    requires
        0 <= i < obs.len(),
        0 <= j < obs.len(),
    ensures
        phase_of(policy, obs.update(i, obs[j]).update(j, obs[i])) == phase_of(policy, obs),
{
    let other = obs.update(i, obs[j]).update(j, obs[i]);
    let place = |k: int|
        if k == i {
            j
        } else if k == j {
            i
        } else {
            k
        };
    assert forall|k: int| 0 <= k < obs.len() implies #[trigger] other[k] == obs[place(k)] by {}
    assert forall|k: int| 0 <= k < obs.len() implies #[trigger] obs[k] == other[place(k)] by {}
    assert(other.len() == obs.len());
    assert(forall|k: int| 0 <= k < obs.len() ==> 0 <= #[trigger] place(k) < obs.len());
    if phase_of(policy, obs) is Pending {
        if obs.len() > 0 {
            let k = choose|k: int| 0 <= k < obs.len() && never_started(#[trigger] obs[k]);
            assert(never_started(other[place(k)]));
        }
    } else {
        assert forall|k: int| 0 <= k < other.len() implies !never_started(#[trigger] other[k]) by {
            assert(!never_started(obs[place(k)]));
        }
        let live = |o: ObsView|
            o.state is Running || restartable(policy, o) || (backs_off(o) && policy
                != RestartPolicy::Never);
        if phase_of(policy, obs) is Running {
            let k = choose|k: int| 0 <= k < obs.len() && live(#[trigger] obs[k]);
            assert(live(other[place(k)]));
        } else {
            assert forall|k: int| 0 <= k < other.len() implies !live(#[trigger] other[k]) by {
                assert(!live(obs[place(k)]));
            }
            if phase_of(policy, obs) is Succeeded {
                assert forall|k: int| 0 <= k < other.len() implies ended_well(
                    #[trigger] other[k],
                ) by {
                    assert(ended_well(obs[place(k)]));
                }
            } else {
                let k = choose|k: int| 0 <= k < obs.len() && !ended_well(#[trigger] obs[k]);
                assert(!ended_well(other[place(k)]));
            }
        }
    }
}

/// What is started over: everything under `Always`, nothing under `Never`, and under `OnFailure`
/// everything but what was seen to exit with zero.
pub proof fn what_is_started_over(exit: Termination)
    ensures
        restarts(RestartPolicy::Always, exit),
        !restarts(RestartPolicy::Never, exit),
        restarts(RestartPolicy::OnFailure, exit) <==> exit != Termination::Observed(
            ExitDisposition::Code(0),
        ),
{
}

/// A manifest asks for less than `Always` only by the very words.
pub proof fn only_two_words_ask_for_less(s: Option<Seq<char>>)
    ensures
        policy_named(s) is Never <==> s == Some("Never"@),
        policy_named(s) is OnFailure <==> s == Some("OnFailure"@),
        s is None ==> policy_named(s) is Always,
{
    reveal_strlit("Never");
    reveal_strlit("OnFailure");
    assert("Never"@.len() != "OnFailure"@.len());
}

/// An exit code is published as it was seen, a signal as 128 more than itself, and an end that
/// nobody saw as a kill. The reason tells the three apart: zero, anything else, and not seen.
pub proof fn what_is_published_of_an_end(code: i32, signal: i32)
    requires
        signal <= i32::MAX - 128,
    ensures
        published_code(Termination::Observed(ExitDisposition::Code(code))) == code,
        published_code(Termination::Observed(ExitDisposition::Signal(signal))) == 128 + signal,
        published_code(Termination::Unknown) == 137,
        published_reason(Termination::Observed(ExitDisposition::Code(code))) == if code == 0 {
            "Completed"@
        } else {
            "Error"@
        },
        published_reason(Termination::Observed(ExitDisposition::Signal(signal))) == "Error"@,
        published_reason(Termination::Unknown) == "ContainerStatusUnknown"@,
{
}

/// A code is read back as it was published, unless it was published of an end that nobody saw.
pub proof fn a_code_is_read_back(code: i32, reason: Option<Seq<char>>)
    ensures
        read_back(Some(code as i64), reason) == if reason == Some("ContainerStatusUnknown"@) {
            Termination::Unknown
        } else {
            Termination::Observed(ExitDisposition::Code(code))
        },
        read_back(None, reason) == Termination::Unknown,
        ended_as(Some(code)) == Termination::Observed(ExitDisposition::Code(code)),
        ended_as(None) == Termination::Unknown,
{
}

/// Every container is published, in its place, with all that was seen of it.
pub proof fn every_observation_is_published(obs: Seq<ObsView>, i: int)
    requires
        0 <= i < obs.len(),
    ensures
        statuses_of(obs).len() == obs.len(),
        statuses_of(obs)[i].name == obs[i].name,
        statuses_of(obs)[i].ready == obs[i].ready,
        statuses_of(obs)[i].state == obs[i].state,
        statuses_of(obs)[i].container_id == obs[i].container_id,
        statuses_of(obs)[i].restart_count == obs[i].restart_count,
{
}

proof fn due_holds(obs: Seq<ObsView>, n: int, k: int)
    requires
        0 <= n <= obs.len() <= usize::MAX,
        0 <= k < obs.len(),
    ensures
        due(obs, n).contains(k as usize) <==> k < n && sidecar_due(obs[k]),
    decreases n,
{
    if n > 0 {
        due_holds(obs, n - 1, k);
        let before = due(obs, n - 1);
        if sidecar_due(obs[n - 1]) {
            let after = before.push((n - 1) as usize);
            if before.contains(k as usize) {
                let i = choose|i: int| 0 <= i < before.len() && before[i] == k as usize;
                assert(after[i] == k as usize);
            }
            if after.contains(k as usize) && k != n - 1 {
                let i = choose|i: int| 0 <= i < after.len() && after[i] == k as usize;
                assert(before[i] == k as usize);
            }
            assert(after[before.len() as int] == (n - 1) as usize);
        }
    }
}

proof fn gate_found(obs: Seq<ObsView>, i: int, g: int)
    requires
        0 <= i <= g <= obs.len(),
        forall|k: int| i <= k < g ==> passes(#[trigger] obs[k]),
        g < obs.len() ==> !passes(obs[g]),
    ensures
        gate(obs, i) == if g < obs.len() {
            Some(g)
        } else {
            None::<int>
        },
    decreases g - i,
{
    if i < g {
        assert(passes(obs[i]));
        gate_found(obs, i + 1, g);
    }
}

/// The first init container that is no sidecar and has not exited with zero holds up all behind it:
/// while it is up it is waited for, where it waits it is started, and where it ended it is started
/// over, or fails the pod under `Never`. Of the others, the sidecars before it that never ran or
/// ended are started, and no other.
pub proof fn the_first_unfinished_is_waited_for(
    policy: RestartPolicy,
    obs: Seq<ObsView>,
    g: int,
    k: int,
)
    requires
        0 <= g < obs.len() <= usize::MAX,
        0 <= k < obs.len(),
        k != g,
        forall|j: int|
            0 <= j < g ==> (#[trigger] obs[j]).kind is Sidecar || obs[j].state
                == StateView::Terminated(Termination::Observed(ExitDisposition::Code(0))),
        obs[g].kind is Regular,
        obs[g].state != StateView::Terminated(Termination::Observed(ExitDisposition::Code(0))),
    ensures
        policy is Never && obs[g].state is Terminated ==> init_step(policy, obs)
            == (InitStep::InitFailed { index: g as usize, exit: obs[g].state->Terminated_0 }),
        !(policy is Never && obs[g].state is Terminated) ==> {
            &&& init_step(policy, obs) matches InitStep::AwaitInit { start, blocked_on }
            &&& blocked_on == Some(g as usize)
            &&& start.contains(g as usize) <==> !(obs[g].state is Running)
            &&& start.contains(k as usize) <==> k < g && obs[k].kind is Sidecar && (
            !obs[k].ever_started || obs[k].state is Terminated)
        },
{
    assert forall|j: int| 0 <= j < g implies passes(#[trigger] obs[j]) by {}
    gate_found(obs, 0, g);
    due_holds(obs, g, k);
    due_holds(obs, g, g);
    let before = due(obs, g);
    let after = before.push(g as usize);
    assert(after[before.len() as int] == g as usize);
    if before.contains(k as usize) {
        let i = choose|i: int| 0 <= i < before.len() && before[i] == k as usize;
        assert(after[i] == k as usize);
    }
    if after.contains(k as usize) {
        let i = choose|i: int| 0 <= i < after.len() && after[i] == k as usize;
        assert(before[i] == k as usize);
    }
}

/// Once every init container that is no sidecar has exited with zero nothing is waited for. The
/// sidecars that never ran or ended are started, and where there is none of those the init
/// containers are done.
pub proof fn the_finished_leave_only_sidecars(policy: RestartPolicy, obs: Seq<ObsView>, k: int)
    requires
        obs.len() <= usize::MAX,
        0 <= k < obs.len(),
        forall|j: int|
            0 <= j < obs.len() ==> (#[trigger] obs[j]).kind is Sidecar || obs[j].state
                == StateView::Terminated(Termination::Observed(ExitDisposition::Code(0))),
    ensures
        match init_step(policy, obs) {
            InitStep::AwaitInit { start, blocked_on } => {
                &&& blocked_on is None
                &&& start.len() > 0
                &&& start.contains(k as usize) <==> obs[k].kind is Sidecar && (
                !obs[k].ever_started || obs[k].state is Terminated)
            },
            InitStep::InitFailed { .. } => false,
            InitStep::Complete => !(obs[k].kind is Sidecar && (!obs[k].ever_started
                || obs[k].state is Terminated)),
        },
{
    assert forall|j: int| 0 <= j < obs.len() implies passes(#[trigger] obs[j]) by {}
    gate_found(obs, 0, obs.len() as int);
    due_holds(obs, obs.len() as int, k);
}

proof fn due_ascends(obs: Seq<ObsView>, n: int)
    requires
        0 <= n <= obs.len() <= usize::MAX,
    ensures
        forall|i: int, j: int| 0 <= i < j < due(obs, n).len() ==> due(obs, n)[i] < due(obs, n)[j],
        forall|i: int| 0 <= i < due(obs, n).len() ==> (#[trigger] due(obs, n)[i]) < n,
    decreases n,
{
    if n > 0 {
        due_ascends(obs, n - 1);
        let before = due(obs, n - 1);
        let all = due(obs, n);
        assert forall|i: int| 0 <= i < before.len() implies #[trigger] all[i] == before[i] by {}
    }
}

/// Init containers are started in the order of the manifest, each once.
pub proof fn init_starts_are_in_order(policy: RestartPolicy, obs: Seq<ObsView>, i: int, j: int)
    requires
        obs.len() <= usize::MAX,
        init_step(policy, obs) is AwaitInit,
        0 <= i < j < init_step(policy, obs)->start.len(),
    ensures
        init_step(policy, obs)->start[i] < init_step(policy, obs)->start[j],
{
    gate_is_no_sidecar(obs, 0);
    match gate(obs, 0) {
        Some(g) => due_ascends(obs, g),
        None => due_ascends(obs, obs.len() as int),
    }
}

/// A pod with an init container that is no sidecar and has not exited with zero neither runs nor
/// has succeeded, whatever its app containers do. It has failed only under `Never`, by an init
/// container that ended.
pub proof fn no_app_phase_before_init_is_done(
    policy: RestartPolicy,
    init: Seq<ObsView>,
    app: Seq<ObsView>,
    i: int,
)
    requires
        0 <= i < init.len() <= usize::MAX,
        init[i].kind is Regular,
        init[i].state != StateView::Terminated(Termination::Observed(ExitDisposition::Code(0))),
    ensures
        phase_with_init(policy, init, app) is Pending || phase_with_init(
            policy,
            init,
            app,
        ) is Failed,
        phase_with_init(policy, init, app) is Failed ==> policy is Never && exists|k: int|
            0 <= k < init.len() && (#[trigger] init[k]).kind is Regular
                && init[k].state is Terminated && init[k].state != StateView::Terminated(
                Termination::Observed(ExitDisposition::Code(0)),
            ),
{
    gate_is_no_sidecar(init, 0);
    assert(!passes(init[i]));
    let g = gate(init, 0).unwrap();
    assert(init[g].kind is Regular);
}

/// A pod whose init containers all exited with zero, or are sidecars that are up, has the phase of
/// its app containers.
pub proof fn done_init_leaves_the_app_phase(
    policy: RestartPolicy,
    init: Seq<ObsView>,
    app: Seq<ObsView>,
)
    requires
        init.len() <= usize::MAX,
        forall|k: int|
            0 <= k < init.len() ==> if (#[trigger] init[k]).kind is Sidecar {
                init[k].ever_started && !(init[k].state is Terminated)
            } else {
                init[k].state == StateView::Terminated(
                    Termination::Observed(ExitDisposition::Code(0)),
                )
            },
    ensures
        init_step(policy, init) is Complete,
        phase_with_init(policy, init, app) == phase_of(policy, app),
{
    assert forall|k: int| 0 <= k < init.len() implies passes(#[trigger] init[k]) by {}
    gate_found(init, 0, init.len() as int);
    if due(init, init.len() as int).len() > 0 {
        due_bounds(init, init.len() as int);
        let k = due(init, init.len() as int)[0] as int;
        assert(sidecar_due(init[k]));
    }
}

/// What is told of a container of a pod that was lost: it keeps its name, its id and its count, it
/// is not ready, and it is up no more. How it ended is not made up.
pub proof fn what_is_told_of_the_lost(c: StoredContainer)
    ensures
        !lost_view(c).ready,
        match c {
            StoredContainer::NotStarted { name } => {
                &&& lost_view(c).name == name@
                &&& lost_view(c).state is Waiting
                &&& lost_view(c).container_id is None
                &&& lost_view(c).restart_count == 0
            },
            StoredContainer::Up { name, run } => {
                &&& lost_view(c).name == name@
                &&& lost_view(c).state == StateView::Terminated(Termination::Unknown)
                &&& lost_view(c).container_id == opt_string(run.container_id)
                &&& lost_view(c).restart_count == run.restart_count
            },
            StoredContainer::Ended { name, run, exit } => {
                &&& lost_view(c).name == name@
                &&& lost_view(c).state == StateView::Terminated(exit)
                &&& lost_view(c).container_id == opt_string(run.container_id)
                &&& lost_view(c).restart_count == run.restart_count
            },
        },
{
}

/// A start is fresh exactly where no run was published. It takes a run over, with its count, exactly
/// where the runtime keeps what is up and gave it the same id; every other start counts one more.
pub proof fn how_a_start_counts(run: StoredRun, id: Seq<char>, readoption: Readoption)
    ensures
        started_as(None, id, readoption) is Fresh,
        match started_as(Some(run), id, readoption) {
            StartedAs::Fresh => false,
            StartedAs::Adopted { restart_count } => {
                &&& readoption is AdoptsRunning
                &&& run.container_id matches Some(before) && before@ == id
                &&& restart_count == run.restart_count
            },
            StartedAs::Restarted { restart_count } => {
                &&& readoption is AdoptsRunning ==> !(run.container_id matches Some(before)
                    && before@ == id)
                &&& restart_count as int == run.restart_count + 1 || (run.restart_count
                    == u32::MAX && restart_count == u32::MAX)
            },
        },
{
}

/// The only init container of a pod is waited for until it exits with zero, unless it ended under
/// `Never`.
pub proof fn the_only_unfinished_is_waited_for(policy: RestartPolicy, obs: Seq<ObsView>)
    requires
        obs.len() == 1,
        obs[0].kind is Regular,
        obs[0].state != StateView::Terminated(Termination::Observed(ExitDisposition::Code(0))),
    ensures
        policy is Never && obs[0].state is Terminated ==> init_step(policy, obs)
            == (InitStep::InitFailed { index: 0, exit: obs[0].state->Terminated_0 }),
        !(policy is Never && obs[0].state is Terminated) ==> {
            &&& init_step(policy, obs) matches InitStep::AwaitInit { start, blocked_on }
            &&& blocked_on == Some(0usize)
            &&& start.contains(0usize) <==> !(obs[0].state is Running)
        },
{
    gate_found(obs, 0, 0);
    assert(due(obs, 0).len() == 0);
    let after = due(obs, 0).push(0usize);
    assert(after[0] == 0usize);
}

/// What was seen of a container, and what is published of it, is all of it, each part from its own
/// place and in its order.
pub proof fn a_container_is_told_whole(
    o: ContainerObservation,
    s: ContainerStatusOut,
    all: Seq<ContainerObservation>,
    out: Seq<ContainerStatusOut>,
    i: int,
)
    ensures
        o@.name == o.name@,
        o@.state == o.state@,
        o@.container_id is Some == o.container_id is Some,
        o.container_id matches Some(id) ==> o@.container_id == Some(id@),
        o@.restart_count == o.restart_count,
        o@.ready == o.ready,
        o@.kind == o.kind,
        o@.ever_started == o.ever_started,
        s@.name == s.name@,
        s@.ready == s.ready,
        s@.state == s.state@,
        s@.container_id is Some == s.container_id is Some,
        s.container_id matches Some(id) ==> s@.container_id == Some(id@),
        s@.restart_count == s.restart_count,
        o.state is Running <==> o.state@ is Running,
        o.state matches ContainerState::Waiting { reason } ==> o.state@ == (StateView::Waiting {
            reason: reason@,
        }),
        o.state matches ContainerState::Terminated(t) ==> o.state@ == StateView::Terminated(t),
        obs_views(all).len() == all.len(),
        0 <= i < all.len() ==> obs_views(all)[i] == all[i]@,
        status_views(out).len() == out.len(),
        0 <= i < out.len() ==> status_views(out)[i] == out[i]@,
{
}

/// A container that was not started waits to be created, without an id and without a restart. One that
/// was has its id and its count, and is as it was seen.
pub proof fn what_is_seen_before_and_after_a_start(
    name: Seq<char>,
    id: Seq<char>,
    n: u32,
    state: StateView,
    ready: bool,
)
    ensures
        waiting_view(name).name == name,
        waiting_view(name).state == (StateView::Waiting { reason: "ContainerCreating"@ }),
        waiting_view(name).container_id is None,
        waiting_view(name).restart_count == 0,
        !waiting_view(name).ready,
        !waiting_view(name).ever_started,
        started_view(name, id, n, state, ready).name == name,
        started_view(name, id, n, state, ready).state == state,
        started_view(name, id, n, state, ready).container_id == Some(id),
        started_view(name, id, n, state, ready).restart_count == n,
        started_view(name, id, n, state, ready).ready == ready,
        started_view(name, id, n, state, ready).ever_started,
{
}

} // verus!
