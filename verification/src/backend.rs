//! What runs containers: what it is told, what it answers, and the two runtimes whose every step
//! is decided here.

use vstd::prelude::*;
use crate::cri::{self, RunState};
use crate::error::{self, KubeletError};
use crate::json::{Doc, Json};
use crate::lifecycle::{self, InitKind};
use crate::number::{self, decimal_i64, decimal_u64, hex8_u64, parse_i32};
use crate::quantity::{self, Resources};
use crate::scan::{self, contains, split, tail_lines, trim};
use crate::table::Table;
use crate::text::{
    self,
    cat2,
    cat3,
    cat4,
    cat6,
    chars_of,
    clone_opt,
    clone_strings,
    debug_of,
    decode_lossy,
    same,
};
use crate::time::{self, Duration};

verus! {

/// What came of a command that was run in a container.
#[derive(Clone, Debug, PartialEq, Eq)]
pub struct ExecOutcome {
    pub exit_code: i32,
    pub stdout: String,
    pub stderr: String,
}

impl ExecOutcome {
    /// A command that succeeded and wrote nothing.
    pub fn success() -> (r: ExecOutcome)
        ensures
            r.exit_code == 0,
            r.stdout@.len() == 0,
            r.stderr@.len() == 0,
    {
        ExecOutcome { exit_code: 0, stdout: String::new(), stderr: String::new() }
    }

    /// A command that ended with this code and wrote nothing.
    pub fn failure(code: i32) -> (r: ExecOutcome)
        ensures
            r.exit_code == code,
            r.stdout@.len() == 0,
            r.stderr@.len() == 0,
    {
        ExecOutcome { exit_code: code, stdout: String::new(), stderr: String::new() }
    }
}

/// Whether a runtime can take over containers that an earlier process started.
#[derive(Clone, Copy, Debug, PartialEq, Eq, Structural)]
pub enum Readoption {
    /// A container that is up is handed back as it is.
    AdoptsRunning,
    /// What an earlier process started is lost.
    Cannot,
}

/// Which container of which pod a container is.
#[derive(Debug, PartialEq, Eq)]
pub struct PodIdentity {
    pub namespace: String,
    pub name: String,
    pub uid: String,
    pub container_name: String,
    /// Whether it is an init container.
    pub init: bool,
}

impl Default for PodIdentity {
    fn default() -> (r: PodIdentity)
        ensures
            r.namespace@.len() == 0,
            r.name@.len() == 0,
            r.uid@.len() == 0,
            r.container_name@.len() == 0,
            !r.init,
    {
        PodIdentity {
            namespace: String::new(),
            name: String::new(),
            uid: String::new(),
            container_name: String::new(),
            init: false,
        }
    }
}

impl PodIdentity {
    /// Whether this names a pod.
    pub fn is_present(&self) -> (r: bool)
        ensures
            r == (self.namespace@.len() > 0 && self.name@.len() > 0),
    {
        !self.namespace.as_str().is_empty() && !self.name.as_str().is_empty()
    }

    /// A copy.
    pub fn copy(&self) -> (r: PodIdentity)
        ensures
            r == *self,
    {
        PodIdentity {
            namespace: self.namespace.clone(),
            name: self.name.clone(),
            uid: self.uid.clone(),
            container_name: self.container_name.clone(),
            init: self.init,
        }
    }
}

/// Where the contents of a mount come from.
#[derive(Clone, Debug, PartialEq, Eq)]
pub enum MountSource {
    /// A volume that the runtime keeps under this name.
    NamedVolume(String),
    /// A directory of the host that lives as long as the pod.
    EmptyDirHostDir(String),
    /// A directory of the host with files written for the pod.
    HostDir(String),
    /// A directory of the host that the manifest names.
    UserHostPath(String),
    /// A directory of the host where a claimed volume is mounted.
    PvcHostDir { path: String, read_only: bool },
}

/// What a runtime binds for a mount.
pub enum BindSource<'a> {
    /// A path of the host.
    Path(&'a str),
    /// A volume that the runtime keeps.
    Volume(&'a str),
}

impl MountSource {
    /// What a runtime binds for this source.
    pub fn bind_source(&self) -> (r: BindSource<'_>)
        ensures
            match self {
                MountSource::NamedVolume(n) => r matches BindSource::Volume(v) && v@ == n@,
                MountSource::EmptyDirHostDir(p) => r matches BindSource::Path(q) && q@ == p@,
                MountSource::HostDir(p) => r matches BindSource::Path(q) && q@ == p@,
                MountSource::UserHostPath(p) => r matches BindSource::Path(q) && q@ == p@,
                MountSource::PvcHostDir { path, .. } => r matches BindSource::Path(q) && q@
                    == path@,
            },
    {
        match self {
            MountSource::NamedVolume(n) => BindSource::Volume(n.as_str()),
            MountSource::EmptyDirHostDir(p) => BindSource::Path(p.as_str()),
            MountSource::HostDir(p) => BindSource::Path(p.as_str()),
            MountSource::UserHostPath(p) => BindSource::Path(p.as_str()),
            MountSource::PvcHostDir { path, .. } => BindSource::Path(path.as_str()),
        }
    }

    /// A copy.
    pub fn copy(&self) -> (r: MountSource)
        ensures
            r == *self,
    {
        match self {
            MountSource::NamedVolume(n) => MountSource::NamedVolume(n.clone()),
            MountSource::EmptyDirHostDir(p) => MountSource::EmptyDirHostDir(p.clone()),
            MountSource::HostDir(p) => MountSource::HostDir(p.clone()),
            MountSource::UserHostPath(p) => MountSource::UserHostPath(p.clone()),
            MountSource::PvcHostDir { path, read_only } => MountSource::PvcHostDir {
                path: path.clone(),
                read_only: *read_only,
            },
        }
    }
}

/// One mount of a container.
#[derive(Clone, Debug, PartialEq, Eq)]
pub struct ResolvedMount {
    pub source: MountSource,
    pub mount_path: String,
    pub read_only: bool,
    pub sub_path: Option<String>,
}

impl ResolvedMount {
    /// A copy.
    pub fn copy(&self) -> (r: ResolvedMount)
        ensures
            r == *self,
    {
        ResolvedMount {
            source: self.source.copy(),
            mount_path: self.mount_path.clone(),
            read_only: self.read_only,
            sub_path: clone_opt(&self.sub_path),
        }
    }
}

/// A copy of a list of mounts.
pub fn clone_mounts(v: &[ResolvedMount]) -> (r: Vec<ResolvedMount>)
    ensures
        r@ == v@,
{
    let mut out: Vec<ResolvedMount> = Vec::new();
    let mut i: usize = 0;
    while i < v.len()
        invariant
            i <= v@.len(),
            out@ =~= v@.take(i as int),
        decreases v@.len() - i,
    {
        out.push(v[i].copy());
        i += 1;
    }
    assert(v@.take(i as int) =~= v@);
    out
}

/// When an image is fetched.
#[derive(Clone, Copy, Debug, PartialEq, Eq, Structural)]
pub enum PullPolicy {
    /// Never.
    Never,
    /// Where it is missing.
    Missing,
    /// Where it is missing. The command line also fetches a newer one.
    IfNotPresent,
    /// Each time.
    Always,
}

impl Default for PullPolicy {
    fn default() -> (r: PullPolicy)
        ensures
            r == PullPolicy::Never,
    {
        PullPolicy::Never
    }
}

/// What the command line calls a policy.
pub open spec fn pull_flag(p: PullPolicy) -> Seq<char> {
    match p {
        PullPolicy::Never => "never"@,
        PullPolicy::Missing => "missing"@,
        PullPolicy::IfNotPresent => "newer"@,
        PullPolicy::Always => "always"@,
    }
}

/// The policy of a container: the one that its manifest names. Where it names none that there is,
/// the image is fetched where it is missing.
pub open spec fn pull_resolved(name: Option<Seq<char>>) -> PullPolicy {
    if name == Some("Always"@) {
        PullPolicy::Always
    } else if name == Some("Never"@) {
        PullPolicy::Never
    } else {
        PullPolicy::IfNotPresent
    }
}

impl PullPolicy {
    /// What the command line calls the policy.
    pub fn flag_value(self) -> (r: &'static str)
        ensures
            r@ == pull_flag(self),
    {
        match self {
            PullPolicy::Never => "never",
            PullPolicy::Missing => "missing",
            PullPolicy::IfNotPresent => "newer",
            PullPolicy::Always => "always",
        }
    }

    /// The policy of a container whose manifest names this one, or none.
    pub fn resolve(name: Option<&str>) -> (r: PullPolicy)
        ensures
            r == pull_resolved(lifecycle::opt_text(name)),
    {
        match name {
            None => PullPolicy::IfNotPresent,
            Some(t) => if same(t, "Always") {
                PullPolicy::Always
            } else if same(t, "Never") {
                PullPolicy::Never
            } else {
                PullPolicy::IfNotPresent
            },
        }
    }
}

/// How long an ended container is given to end, where nothing is said, in seconds.
pub const DEFAULT_GRACE_SECS: u64 = 30;

/// A container to run.
#[derive(Debug)]
pub struct ContainerSpec {
    /// What the runtime calls it.
    pub name: String,
    pub image: String,
    pub env: Table<String>,
    pub command: Vec<String>,
    /// The names under which others reach it on its network.
    pub network_aliases: Vec<String>,
    /// When its image is fetched. Every container of a pod has one.
    pub pull_policy: Option<PullPolicy>,
    pub mounts: Vec<ResolvedMount>,
    /// What it may do, as the manifest says it.
    pub security_context: Option<Json>,
    /// The names it resolves without asking anyone, each with its address.
    pub host_add: Vec<String>,
    pub resources: Resources,
    pub init_kind: InitKind,
    pub pod: PodIdentity,
    /// How long it is given to end.
    pub termination_grace: Duration,
}

impl Default for ContainerSpec {
    fn default() -> (r: ContainerSpec)
        ensures
            r.name@.len() == 0,
            r.image@.len() == 0,
            r.env@ == Map::<Seq<char>, String>::empty(),
            r.command@.len() == 0,
            r.network_aliases@.len() == 0,
            r.pull_policy is None,
            r.mounts@.len() == 0,
            r.security_context is None,
            r.host_add@.len() == 0,
            r.resources.cpu_limit_milli is Unset,
            r.resources.cpu_request_milli is Unset,
            r.resources.memory_limit_bytes is Unset,
            r.init_kind == InitKind::Regular,
            r.pod.namespace@.len() == 0,
            r.pod.name@.len() == 0,
            r.termination_grace@ == time::secs(DEFAULT_GRACE_SECS as nat),
    {
        ContainerSpec {
            name: String::new(),
            image: String::new(),
            env: Table::new(),
            command: Vec::new(),
            network_aliases: Vec::new(),
            pull_policy: None,
            mounts: Vec::new(),
            security_context: None,
            host_add: Vec::new(),
            resources: Resources::default(),
            init_kind: InitKind::Regular,
            pod: PodIdentity::default(),
            termination_grace: Duration::from_secs(DEFAULT_GRACE_SECS),
        }
    }
}

/// What a `PodIdentity` stands for.
#[verifier::ext_equal]
pub struct IdentityView {
    pub namespace: Seq<char>,
    pub name: Seq<char>,
    pub uid: Seq<char>,
    pub container_name: Seq<char>,
    pub init: bool,
}

impl View for PodIdentity {
    type V = IdentityView;

    open spec fn view(&self) -> IdentityView {
        IdentityView {
            namespace: self.namespace@,
            name: self.name@,
            uid: self.uid@,
            container_name: self.container_name@,
            init: self.init,
        }
    }
}

/// What a `ContainerSpec` stands for.
#[verifier::ext_equal]
pub struct SpecView {
    pub name: Seq<char>,
    pub image: Seq<char>,
    pub env: Map<Seq<char>, Seq<char>>,
    pub command: Seq<Seq<char>>,
    pub network_aliases: Seq<Seq<char>>,
    pub pull_policy: Option<PullPolicy>,
    pub mounts: Seq<ResolvedMount>,
    pub security_context: Option<Doc>,
    pub host_add: Seq<Seq<char>>,
    pub resources: quantity::ResourcesView,
    pub init_kind: InitKind,
    pub pod: IdentityView,
    pub termination_grace: nat,
}

impl View for ContainerSpec {
    type V = SpecView;

    open spec fn view(&self) -> SpecView {
        SpecView {
            name: self.name@,
            image: self.image@,
            env: crate::env_ref::variables(self.env),
            command: text::texts(self.command@),
            network_aliases: text::texts(self.network_aliases@),
            pull_policy: self.pull_policy,
            mounts: self.mounts@,
            security_context: match self.security_context {
                Some(c) => Some(c@),
                None => None,
            },
            host_add: text::texts(self.host_add@),
            resources: self.resources@,
            init_kind: self.init_kind,
            pod: self.pod@,
            termination_grace: self.termination_grace@,
        }
    }
}

impl ContainerSpec {
    /// A copy.
    pub fn copy(&self) -> (r: ContainerSpec)
        ensures
            r@ == self@,
    {
        ContainerSpec {
            name: self.name.clone(),
            image: self.image.clone(),
            env: self.env.copy(),
            command: clone_strings(self.command.as_slice()),
            network_aliases: clone_strings(self.network_aliases.as_slice()),
            pull_policy: self.pull_policy,
            mounts: clone_mounts(self.mounts.as_slice()),
            security_context: match &self.security_context {
                Some(c) => Some(c.copy()),
                None => None,
            },
            host_add: clone_strings(self.host_add.as_slice()),
            resources: self.resources.copy(),
            init_kind: self.init_kind,
            pod: self.pod.copy(),
            termination_grace: self.termination_grace,
        }
    }
}

impl ContainerSpec {
    /// The same container, reached under these names and resolving these.
    pub fn with_names(self, aliases: &[String], hosts: &[String]) -> (r: ContainerSpec)
        ensures
            r@ == (SpecView {
                network_aliases: text::texts(aliases@),
                host_add: text::texts(hosts@),
                ..self@
            }),
    {
        let mut out = self;
        out.network_aliases = clone_strings(aliases);
        out.host_add = clone_strings(hosts);
        out
    }

    /// The same container with these mounts.
    pub fn with_mounts(self, mounts: Vec<ResolvedMount>) -> (r: ContainerSpec)
        ensures
            r@ == (SpecView { mounts: mounts@, ..self@ }),
    {
        let mut out = self;
        out.mounts = mounts;
        out
    }
}

/// What a runtime says of a container.
#[derive(Debug, PartialEq, Eq)]
pub struct ContainerStatus {
    pub container_id: String,
    pub running: bool,
    pub pod_ip: Option<String>,
    pub exit_code: Option<i32>,
}

impl ContainerStatus {
    /// A container that is up at this address.
    pub fn running(container_id: &str, pod_ip: &str) -> (r: ContainerStatus)
        ensures
            r.container_id@ == container_id@,
            r.running,
            r.pod_ip matches Some(ip) && ip@ == pod_ip@,
            r.exit_code is None,
    {
        ContainerStatus {
            container_id: container_id.to_owned(),
            running: true,
            pod_ip: Some(pod_ip.to_owned()),
            exit_code: None,
        }
    }

    /// A container that is in this state.
    pub fn of_run_state(container_id: &str, state: RunState, pod_ip: Option<&str>) -> (r:
        ContainerStatus)
        ensures
            r.container_id@ == container_id@,
            r.running == (state is Running),
            r.exit_code == match state {
                RunState::Exited(d) => Some(cri::code_of(d) as i32),
                _ => None,
            },
            lifecycle::opt_string(r.pod_ip) == lifecycle::opt_text(pod_ip),
    {
        ContainerStatus {
            container_id: container_id.to_owned(),
            running: state.is_running(),
            exit_code: match state.exit() {
                Some(d) => Some(d.exit_code()),
                None => None,
            },
            pod_ip: match pod_ip {
                Some(ip) => Some(ip.to_owned()),
                None => None,
            },
        }
    }

    /// A copy.
    pub fn copy(&self) -> (r: ContainerStatus)
        ensures
            r == *self,
    {
        ContainerStatus {
            container_id: self.container_id.clone(),
            running: self.running,
            pod_ip: clone_opt(&self.pod_ip),
            exit_code: self.exit_code,
        }
    }
}

/// Which part of a container's log is wanted.
#[derive(Clone, Copy, Debug, PartialEq, Eq, Structural)]
pub struct LogOptions {
    /// The last lines, this many of them.
    pub tail: Option<u32>,
    pub timestamps: bool,
}

impl Default for LogOptions {
    fn default() -> (r: LogOptions)
        ensures
            r == (LogOptions { tail: None, timestamps: false }),
    {
        LogOptions { tail: None, timestamps: false }
    }
}

impl LogOptions {
    /// All of it.
    pub fn all() -> (r: LogOptions)
        ensures
            r == (LogOptions { tail: None, timestamps: false }),
    {
        LogOptions { tail: None, timestamps: false }
    }

    /// The last `n` lines.
    pub fn tail(n: u32) -> (r: LogOptions)
        ensures
            r == (LogOptions { tail: Some(n), timestamps: false }),
    {
        LogOptions { tail: Some(n), timestamps: false }
    }
}

// ---- the runtime that runs nothing ---------------------------------------------------------

/// What was asked of a `FakeBackend`.
#[derive(Clone, Debug, PartialEq, Eq)]
pub enum FakeEvent {
    Start(String),
    Stop(String),
    Remove(String),
}

/// What a `FakeEvent` stands for.
pub enum EventView {
    Start(Seq<char>),
    Stop(Seq<char>),
    Remove(Seq<char>),
}

impl View for FakeEvent {
    type V = EventView;

    open spec fn view(&self) -> EventView {
        match self {
            FakeEvent::Start(s) => EventView::Start(s@),
            FakeEvent::Stop(s) => EventView::Stop(s@),
            FakeEvent::Remove(s) => EventView::Remove(s@),
        }
    }
}

/// A runtime that runs nothing and remembers what it was asked.
#[derive(Debug)]
pub struct FakeBackend {
    next_id: u64,
    containers: Table<ContainerStatus>,
    events: Vec<FakeEvent>,
    logs: Table<String>,
    seeded_logs_by_name: Table<String>,
}

/// What is known of a `FakeBackend`.
#[verifier::ext_equal]
pub struct FakeView {
    /// How many containers were started.
    pub started: nat,
    /// The containers it keeps.
    pub containers: Map<Seq<char>, ContainerStatus>,
    /// What it was asked, in order.
    pub events: Seq<EventView>,
    /// The log of each container.
    pub logs: Map<Seq<char>, Seq<char>>,
    /// The logs that containers of these names get.
    pub seeds: Map<Seq<char>, Seq<char>>,
}

impl View for FakeBackend {
    type V = FakeView;

    closed spec fn view(&self) -> FakeView {
        FakeView {
            started: self.next_id as nat,
            containers: self.containers@,
            events: self.events@.map_values(|e: FakeEvent| e@),
            logs: self.logs@.map_values(|s: String| s@),
            seeds: self.seeded_logs_by_name@.map_values(|s: String| s@),
        }
    }
}

/// The id of the `n`-th container that a fake runtime starts.
pub open spec fn fake_id(n: nat) -> Seq<char> {
    "fake-"@ + number::hex8(n)
}

/// The address of the `n`-th container that a fake runtime starts.
pub open spec fn fake_ip(n: nat) -> Seq<char> {
    "10.42.0."@ + number::decimal((n % 250) as int)
}

/// The log of a container of this name.
pub open spec fn fake_log(seeds: Map<Seq<char>, Seq<char>>, name: Seq<char>) -> Seq<char> {
    if seeds.dom().contains(name) {
        seeds[name]
    } else {
        name + " log line\n"@
    }
}

/// What is returned of a log.
pub open spec fn fake_tail(buf: Seq<char>, tail: Option<u32>) -> Seq<char> {
    match tail {
        None => buf,
        Some(n) => if n == 0 {
            Seq::empty()
        } else {
            let t = scan::last_lines(buf, n as nat);
            if buf.len() > 0 && buf.last() == '\n' && t.len() > 0 {
                t + "\n"@
            } else {
                t
            }
        },
    }
}

impl FakeBackend {
    /// A runtime that was asked nothing yet.
    pub fn new() -> (r: FakeBackend)
        ensures
            r@ == (FakeView {
                started: 0,
                containers: Map::empty(),
                events: Seq::empty(),
                logs: Map::empty(),
                seeds: Map::empty(),
            }),
    {
        FakeBackend {
            next_id: 0,
            containers: Table::new(),
            events: Vec::new(),
            logs: Table::new(),
            seeded_logs_by_name: Table::new(),
        }
    }

    /// The runtime's name.
    pub fn name(&self) -> (r: &'static str)
        ensures
            r@ == "fake"@,
    {
        "fake"
    }

    /// The containers it keeps, in the order of their ids.
    pub fn containers(&self) -> (r: Vec<(String, ContainerStatus)>)
        ensures
            r@.len() == text::sorted(self@.containers.dom()).len(),
            forall|i: int|
                #![trigger r@[i]]
                0 <= i < r@.len() ==> r@[i].0@ == text::sorted(self@.containers.dom())[i]
                    && self@.containers[r@[i].0@] == r@[i].1,
    {
        let keys = self.containers.keys();
        let ghost all = text::texts(keys@);
        let mut out: Vec<(String, ContainerStatus)> = Vec::new();
        let mut i: usize = 0;
        while i < keys.len()
            invariant
                i <= keys@.len(),
                out@.len() == i,
                all == text::texts(keys@),
                all.to_set() == self.containers@.dom(),
                forall|k: int|
                    #![trigger out@[k]]
                    0 <= k < i ==> out@[k].0@ == all[k] && self.containers@[out@[k].0@]
                        == out@[k].1,
            decreases keys@.len() - i,
        {
            assert(all[i as int] == keys@[i as int]@);
            assert(all.to_set().contains(all[i as int]));
            if let Some(s) = self.containers.get(keys[i].as_str()) {
                out.push((keys[i].clone(), s.copy()));
            }
            i += 1;
        }
        out
    }

    /// What it was asked, in order.
    pub fn events(&self) -> (r: Vec<FakeEvent>)
        ensures
            r@.map_values(|e: FakeEvent| e@) == self@.events,
    {
        let mut out: Vec<FakeEvent> = Vec::new();
        let mut i: usize = 0;
        while i < self.events.len()
            invariant
                i <= self.events@.len(),
                out@.len() == i,
                forall|k: int| 0 <= k < i ==> (#[trigger] out@[k])@ == self.events@[k]@,
            decreases self.events@.len() - i,
        {
            let e = match &self.events[i] {
                FakeEvent::Start(s) => FakeEvent::Start(s.clone()),
                FakeEvent::Stop(s) => FakeEvent::Stop(s.clone()),
                FakeEvent::Remove(s) => FakeEvent::Remove(s.clone()),
            };
            out.push(e);
            i += 1;
        }
        assert(out@.map_values(|e: FakeEvent| e@) =~= self@.events);
        out
    }

    /// How many of its containers are up.
    pub fn running_count(&self) -> (r: usize)
        ensures
            r == up_among(
                text::sorted(self@.containers.dom()),
                self@.containers,
            ),
    {
        let keys = self.containers.keys();
        let ghost all = text::texts(keys@);
        let mut n: usize = 0;
        let mut i: usize = 0;
        assert(all.take(0) =~= Seq::<Seq<char>>::empty());
        while i < keys.len()
            invariant
                n <= i <= keys@.len(),
                all == text::texts(keys@),
                all.to_set() == self.containers@.dom(),
                n == up_among(all.take(i as int), self.containers@),
            decreases keys@.len() - i,
        {
            assert(all[i as int] == keys@[i as int]@);
            assert(all.to_set().contains(all[i as int]));
            assert(all.take(i + 1).drop_last() =~= all.take(i as int));
            if let Some(s) = self.containers.get(keys[i].as_str()) {
                if s.running {
                    n += 1;
                }
            }
            i += 1;
        }
        assert(all.take(i as int) =~= all);
        n
    }

    /// Lets a container end by itself, with this code.
    pub fn set_exit(&mut self, container_id: &str, exit_code: i32)
        ensures
            final(self)@ == (FakeView {
                containers: ended(old(self)@.containers, container_id@, exit_code),
                ..old(self)@
            }),
    {
        if let Some(s) = self.containers.take(container_id) {
            let mut t = s;
            t.running = false;
            t.exit_code = Some(exit_code);
            self.containers.insert(container_id, t);
        }
        assert(self@.containers =~= ended(old(self)@.containers, container_id@, exit_code));
    }

    /// Gives containers of this name this log, from now on.
    pub fn seed_log(&mut self, container_name: &str, content: &str)
        ensures
            final(self)@ == (FakeView {
                seeds: old(self)@.seeds.insert(container_name@, content@),
                ..old(self)@
            }),
    {
        self.seeded_logs_by_name.insert(container_name, content.to_owned());
        assert(self@.seeds =~= old(self)@.seeds.insert(container_name@, content@));
    }

    /// The log of a container.
    pub fn log_of(&self, container_id: &str) -> (r: Option<String>)
        ensures
            match r {
                Some(s) => self@.logs.dom().contains(container_id@) && self@.logs[container_id@]
                    == s@,
                None => !self@.logs.dom().contains(container_id@),
            },
    {
        match self.logs.get(container_id) {
            Some(s) => Some(s.clone()),
            None => None,
        }
    }

    /// Starts a container.
    pub fn start(&mut self, spec: &ContainerSpec) -> (r: Result<ContainerStatus, KubeletError>)
        requires
            old(self)@.started < u64::MAX,
        ensures
            r matches Ok(s) && {
                let n = old(self)@.started + 1;
                &&& s.container_id@ == fake_id(n)
                &&& s.running
                &&& s.pod_ip matches Some(ip) && ip@ == fake_ip(n)
                &&& s.exit_code is None
                &&& final(self)@ == (FakeView {
                    started: n,
                    containers: old(self)@.containers.insert(fake_id(n), s),
                    events: old(self)@.events.push(EventView::Start(spec.name@)),
                    logs: old(self)@.logs.insert(
                        fake_id(n),
                        fake_log(old(self)@.seeds, spec.name@),
                    ),
                    seeds: old(self)@.seeds,
                })
            },
    {
        self.next_id = self.next_id + 1;
        let n = self.next_id;
        let container_id = cat2("fake-", hex8_u64(n).as_str());
        let pod_ip = cat2("10.42.0.", decimal_u64(n % 250).as_str());
        let status = ContainerStatus::running(container_id.as_str(), pod_ip.as_str());
        self.containers.insert(container_id.as_str(), status.copy());
        let log = match self.seeded_logs_by_name.get(spec.name.as_str()) {
            Some(s) => s.clone(),
            None => cat2(spec.name.as_str(), " log line\n"),
        };
        let ghost log_text = log@;
        self.logs.insert(container_id.as_str(), log);
        let event = FakeEvent::Start(spec.name.clone());
        self.events.push(event);
        proof {
            assert(self@.logs =~= old(self)@.logs.insert(container_id@, log_text));
            assert(self@.events =~= old(self)@.events.push(event@));
            assert(log_text =~= fake_log(old(self)@.seeds, spec.name@));
        }
        Ok(status)
    }

    /// What it says of a container.
    pub fn status(&self, container_id: &str) -> (r: Result<Option<ContainerStatus>, KubeletError>)
        ensures
            r matches Ok(o) && match o {
                Some(s) => self@.containers.dom().contains(container_id@)
                    && self@.containers[container_id@] == s,
                None => !self@.containers.dom().contains(container_id@),
            },
    {
        match self.containers.get(container_id) {
            Some(s) => Ok(Some(s.copy())),
            None => Ok(None),
        }
    }

    /// Stops a container, with exit code zero.
    pub fn stop(&mut self, container_id: &str) -> (r: Result<(), KubeletError>)
        ensures
            r is Ok,
            final(self)@ == (FakeView {
                containers: ended(old(self)@.containers, container_id@, 0),
                events: old(self)@.events.push(EventView::Stop(container_id@)),
                ..old(self)@
            }),
    {
        self.set_exit(container_id, 0);
        let event = FakeEvent::Stop(container_id.to_owned());
        self.events.push(event);
        assert(self@.events =~= old(self)@.events.push(event@));
        Ok(())
    }

    /// Forgets a container and its log.
    pub fn remove(&mut self, container_id: &str) -> (r: Result<(), KubeletError>)
        ensures
            r is Ok,
            final(self)@ == (FakeView {
                containers: old(self)@.containers.remove(container_id@),
                logs: old(self)@.logs.remove(container_id@),
                events: old(self)@.events.push(EventView::Remove(container_id@)),
                ..old(self)@
            }),
    {
        self.containers.remove(container_id);
        self.logs.remove(container_id);
        let event = FakeEvent::Remove(container_id.to_owned());
        self.events.push(event);
        assert(self@.logs =~= old(self)@.logs.remove(container_id@));
        assert(self@.events =~= old(self)@.events.push(event@));
        Ok(())
    }

    /// The log of a container, or its last lines.
    pub fn logs(&self, container_id: &str, opts: &LogOptions) -> (r: Result<String, KubeletError>)
        ensures
            if self@.logs.dom().contains(container_id@) {
                r matches Ok(s) && s@ == fake_tail(self@.logs[container_id@], opts.tail)
            } else {
                r matches Err(e) && error::backend_error(
                    e,
                    "no such container for logs: "@ + container_id@,
                )
            },
    {
        let buf = match self.logs.get(container_id) {
            Some(b) => b,
            None => {
                return Err(
                    KubeletError::Backend(cat2("no such container for logs: ", container_id)),
                );
            },
        };
        match opts.tail {
            None => Ok(buf.clone()),
            Some(n) => if n == 0 {
                Ok(String::new())
            } else {
                let t = tail_lines(buf.as_str(), n);
                let chars = chars_of(buf.as_str());
                if chars.len() > 0 && chars[chars.len() - 1] == '\n' && !t.as_str().is_empty() {
                    Ok(cat2(t.as_str(), "\n"))
                } else {
                    Ok(t)
                }
            },
        }
    }
}

/// How many of these containers are up.
pub open spec fn up_among(ids: Seq<Seq<char>>, containers: Map<Seq<char>, ContainerStatus>) -> nat
    decreases ids.len(),
{
    if ids.len() == 0 {
        0
    } else if containers[ids.last()].running {
        up_among(ids.drop_last(), containers) + 1
    } else {
        up_among(ids.drop_last(), containers)
    }
}

/// The containers where one of them, if it is there, has ended with this code.
pub open spec fn ended(
    containers: Map<Seq<char>, ContainerStatus>,
    id: Seq<char>,
    code: i32,
) -> Map<Seq<char>, ContainerStatus> {
    if containers.dom().contains(id) {
        containers.insert(
            id,
            ContainerStatus { running: false, exit_code: Some(code), ..containers[id] },
        )
    } else {
        containers
    }
}

// ---- the runtime that calls podman ---------------------------------------------------------

/// The network that containers join.
#[derive(Clone, Debug, PartialEq, Eq)]
pub enum PodmanNetwork {
    /// One of this name, on which they find each other.
    Named(String),
    /// Whichever the runtime gives them.
    Default,
}

impl Default for PodmanNetwork {
    fn default() -> (r: PodmanNetwork)
        ensures
            r matches PodmanNetwork::Named(n) && n@ == "engenho-net"@,
    {
        PodmanNetwork::Named("engenho-net".to_owned())
    }
}

/// The name of a network, where it has one.
pub open spec fn network_name(n: PodmanNetwork) -> Option<Seq<char>> {
    match n {
        PodmanNetwork::Named(s) => Some(s@),
        PodmanNetwork::Default => None,
    }
}

impl PodmanNetwork {
    /// The name of the network, where it has one.
    pub fn name(&self) -> (r: Option<&str>)
        ensures
            lifecycle::opt_text(r) == network_name(*self),
    {
        match self {
            PodmanNetwork::Named(n) => Some(n.as_str()),
            PodmanNetwork::Default => None,
        }
    }
}

/// How podman is called.
#[derive(Clone, Debug, PartialEq, Eq)]
pub struct PodmanBackend {
    pub binary: String,
    pub pull_policy: PullPolicy,
    pub registry_auth_file: Option<String>,
    pub network: PodmanNetwork,
    /// Where programs in containers find the API server.
    pub kubernetes_service: Option<(String, u16)>,
}

impl Default for PodmanBackend {
    fn default() -> (r: PodmanBackend)
        ensures
            r.binary@ == "podman"@,
            r.pull_policy == PullPolicy::Never,
            r.registry_auth_file is None,
            network_name(r.network) == Some("engenho-net"@),
            r.kubernetes_service is None,
    {
        PodmanBackend {
            binary: "podman".to_owned(),
            pull_policy: PullPolicy::Never,
            registry_auth_file: None,
            network: PodmanNetwork::default(),
            kubernetes_service: None,
        }
    }
}

/// A program that was run to its end.
#[derive(Clone, Debug, PartialEq, Eq)]
pub struct CommandOutput {
    /// Whether it ended with exit code zero.
    pub success: bool,
    pub code: Option<i32>,
    pub stdout: Vec<u8>,
    pub stderr: Vec<u8>,
}

/// An optional exit code as std prints it.
pub open spec fn code_text(c: Option<i32>) -> Seq<char> {
    match c {
        Some(n) => "Some("@ + number::decimal(n as int) + ")"@,
        None => "None"@,
    }
}

fn code_text_of(c: Option<i32>) -> (r: String)
    ensures
        r@ == code_text(c),
{
    match c {
        Some(n) => cat3("Some(", decimal_i64(n as i64).as_str(), ")"),
        None => "None".to_owned(),
    }
}

/// What comes next until the network is there.
#[derive(Debug)]
pub enum NetworkStep {
    /// It is there.
    Ready,
    /// Podman is asked whether it is there.
    Check(Vec<String>),
    /// Podman is asked to make it.
    Create(Vec<String>),
    /// It could not be made.
    Failed(KubeletError),
}

/// The words that are printed where a network could not be made.
pub open spec fn network_failure(name: Seq<char>, out: CommandOutput) -> Seq<char> {
    "podman network create "@ + text::debug_text(name) + " failed (status "@ + code_text(out.code)
        + "): "@ + text::lossy_text(out.stderr@)
}

/// Whether the words say that someone else made the network.
pub open spec fn network_was_there(stderr: Seq<char>) -> bool {
    scan::holds(stderr, "already exists"@) || scan::holds(stderr, "already used"@)
}

/// A word and its value, for each name, in order.
pub open spec fn env_words(keys: Seq<Seq<char>>, vars: Map<Seq<char>, Seq<char>>) -> Seq<Seq<char>>
    decreases keys.len(),
{
    if keys.len() == 0 {
        Seq::empty()
    } else {
        env_words(keys.drop_last(), vars).push("-e"@).push(
            keys.last() + "="@ + vars[keys.last()],
        )
    }
}

/// A flag before each word.
pub open spec fn flagged(flag: Seq<char>, words: Seq<Seq<char>>) -> Seq<Seq<char>>
    decreases words.len(),
{
    if words.len() == 0 {
        Seq::empty()
    } else {
        flagged(flag, words.drop_last()).push(flag).push(words.last())
    }
}

/// The words of `podman run` for a container.
pub open spec fn run_words(b: PodmanBackend, spec: ContainerSpec) -> Seq<Seq<char>> {
    let vars = served(crate::env_ref::variables(spec.env), b.kubernetes_service);
    seq!["run"@, "-d"@] + (match network_name(b.network) {
        Some(net) => seq!["--network"@, net] + flagged(
            "--network-alias"@,
            text::texts(spec.network_aliases@),
        ),
        None => Seq::empty(),
    }) + seq!["--pull"@, pull_flag(b.pull_policy), "--name"@, spec.name@] + env_words(
        text::sorted(vars.dom()),
        vars,
    ) + seq![spec.image@] + text::texts(spec.command@)
}

/// Adds a word to a list of words.
fn add_word(v: &mut Vec<String>, s: &str)
    ensures
        text::texts(final(v)@) == text::texts(old(v)@).push(s@),
{
    let ghost before = v@;
    v.push(s.to_owned());
    assert(text::texts(v@) =~= text::texts(before).push(s@));
}

/// A list of words.
fn words_of(v: &[&str]) -> (r: Vec<String>)
    ensures
        text::texts(r@) == crate::conditions::slices(v@),
{
    let mut out: Vec<String> = Vec::new();
    let mut i: usize = 0;
    assert(text::texts(out@) =~= crate::conditions::slices(v@).take(0));
    while i < v.len()
        invariant
            i <= v@.len(),
            text::texts(out@) =~= crate::conditions::slices(v@).take(i as int),
        decreases v@.len() - i,
    {
        add_word(&mut out, v[i]);
        i += 1;
    }
    assert(crate::conditions::slices(v@).take(i as int) =~= crate::conditions::slices(v@));
    out
}

/// What podman's inspection says of a container.
pub open spec fn inspected(text: Seq<char>) -> Option<(bool, Option<int>, Option<Seq<char>>)> {
    let parts = scan::pieces(scan::trimmed(text), '|');
    if parts.len() < 3 {
        None
    } else {
        Some(
            (
                parts[0] == "true"@,
                match number::read_int(parts[1]) {
                    Some(n) => if i32::MIN <= n <= i32::MAX {
                        Some(n)
                    } else {
                        None
                    },
                    None => None,
                },
                if parts[2].len() == 0 {
                    None
                } else {
                    Some(parts[2])
                },
            ),
        )
    }
}

/// Whether the status is what was inspected of this container.
pub open spec fn status_is(
    s: ContainerStatus,
    id: Seq<char>,
    seen: (bool, Option<int>, Option<Seq<char>>),
) -> bool {
    &&& s.container_id@ == id
    &&& s.running == seen.0
    &&& match s.exit_code {
        Some(c) => seen.1 == Some(c as int),
        None => seen.1 is None,
    }
    &&& lifecycle::opt_string(s.pod_ip) == seen.2
}

/// What podman's answer to an inspection says of a container.
pub open spec fn inspection_is(
    r: Result<Option<ContainerStatus>, KubeletError>,
    id: Seq<char>,
    out: CommandOutput,
) -> bool {
    if out.success {
        match inspected(text::lossy_text(out.stdout@)) {
            Some(seen) => r matches Ok(Some(s)) && status_is(s, id, seen),
            None => r matches Err(e) && error::backend_error(
                e,
                "podman inspect output unexpected shape: "@ + scan::trimmed(
                    text::lossy_text(out.stdout@),
                ),
            ),
        }
    } else {
        let words = text::lossy_text(out.stderr@);
        if scan::holds(words, "no such container"@) || scan::holds(words, "not found"@) {
            r matches Ok(None)
        } else {
            r matches Err(e) && error::backend_error(e, "podman inspect failed: "@ + words)
        }
    }
}

impl PodmanBackend {
    /// Podman as it is found on the path.
    pub fn new() -> (r: PodmanBackend)
        ensures
            r.binary@ == "podman"@,
            r.pull_policy == PullPolicy::Never,
            r.registry_auth_file is None,
            network_name(r.network) == Some("engenho-net"@),
            r.kubernetes_service is None,
    {
        PodmanBackend::default()
    }

    /// Podman at this path.
    pub fn with_binary(binary: &str) -> (r: PodmanBackend)
        ensures
            r.binary@ == binary@,
            r.pull_policy == PullPolicy::Never,
            r.registry_auth_file is None,
            network_name(r.network) == Some("engenho-net"@),
            r.kubernetes_service is None,
    {
        let mut out = PodmanBackend::default();
        out.binary = binary.to_owned();
        out
    }

    /// The same, with this policy.
    pub fn with_pull_policy(self, pull_policy: PullPolicy) -> (r: PodmanBackend)
        ensures
            r == (PodmanBackend { pull_policy, ..self }),
    {
        let mut out = self;
        out.pull_policy = pull_policy;
        out
    }

    /// The same, with the credentials in this file.
    pub fn with_registry_auth_file(self, path: &str) -> (r: PodmanBackend)
        ensures
            r.binary == self.binary,
            r.pull_policy == self.pull_policy,
            r.network == self.network,
            r.kubernetes_service == self.kubernetes_service,
            r.registry_auth_file matches Some(p) && p@ == path@,
    {
        let mut out = self;
        out.registry_auth_file = Some(path.to_owned());
        out
    }

    /// The same, on this network.
    pub fn with_network(self, network: PodmanNetwork) -> (r: PodmanBackend)
        ensures
            r == (PodmanBackend { network, ..self }),
    {
        let mut out = self;
        out.network = network;
        out
    }

    /// The same, where programs in containers find the API server here.
    pub fn with_kubernetes_service(self, host: &str, port: u16) -> (r: PodmanBackend)
        ensures
            r.binary == self.binary,
            r.pull_policy == self.pull_policy,
            r.registry_auth_file == self.registry_auth_file,
            r.network == self.network,
            r.kubernetes_service matches Some((h, p)) && h@ == host@ && p == port,
    {
        let mut out = self;
        out.kubernetes_service = Some((host.to_owned(), port));
        out
    }

    /// The runtime's name.
    pub fn name(&self) -> (r: &'static str)
        ensures
            r@ == "podman"@,
    {
        "podman"
    }

    /// The words of `podman run` for a container.
    pub fn run_argv(&self, spec: &ContainerSpec) -> (r: Vec<String>)
        ensures
            text::texts(r@) == run_words(*self, *spec),
    {
        let env = with_service_env(&spec.env, &self.kubernetes_service);
        let ghost vars = crate::env_ref::variables(env);
        let start: [&str; 2] = ["run", "-d"];
        let mut argv = words_of(&start);
        let ghost base = seq!["run"@, "-d"@];
        assert(crate::conditions::slices(start@) =~= base);
        let ghost mut head = base;
        if let Some(net) = self.network.name() {
            add_word(&mut argv, "--network");
            add_word(&mut argv, net);
            let ghost aliases = text::texts(spec.network_aliases@);
            let ghost before = base + seq!["--network"@, net@];
            let mut i: usize = 0;
            assert(aliases.take(0) =~= Seq::<Seq<char>>::empty());
            assert(text::texts(argv@) =~= before + flagged("--network-alias"@, aliases.take(0)));
            while i < spec.network_aliases.len()
                invariant
                    i <= spec.network_aliases@.len(),
                    aliases == text::texts(spec.network_aliases@),
                    text::texts(argv@) =~= before + flagged(
                        "--network-alias"@,
                        aliases.take(i as int),
                    ),
                decreases spec.network_aliases@.len() - i,
            {
                assert(aliases.take(i + 1).drop_last() =~= aliases.take(i as int));
                assert(aliases.take(i + 1).last() == spec.network_aliases@[i as int]@);
                add_word(&mut argv, "--network-alias");
                add_word(&mut argv, spec.network_aliases[i].as_str());
                i += 1;
            }
            assert(aliases.take(i as int) =~= aliases);
            proof {
                head = base + (seq!["--network"@, net@] + flagged("--network-alias"@, aliases));
            }
        } else {
            assert(base + Seq::<Seq<char>>::empty() =~= base);
        }
        assert(text::texts(argv@) =~= head);
        add_word(&mut argv, "--pull");
        add_word(&mut argv, self.pull_policy.flag_value());
        add_word(&mut argv, "--name");
        add_word(&mut argv, spec.name.as_str());
        let ghost before = head + seq![
            "--pull"@,
            pull_flag(self.pull_policy),
            "--name"@,
            spec.name@,
        ];
        assert(text::texts(argv@) =~= before);
        let keys = env.keys();
        assert(env@.dom() =~= vars.dom());
        let ghost all = text::texts(keys@);
        let mut i: usize = 0;
        assert(all.take(0) =~= Seq::<Seq<char>>::empty());
        while i < keys.len()
            invariant
                i <= keys@.len(),
                all == text::texts(keys@),
                all.to_set() == env@.dom(),
                vars == crate::env_ref::variables(env),
                text::texts(argv@) =~= before + env_words(all.take(i as int), vars),
            decreases keys@.len() - i,
        {
            assert(all.take(i + 1).drop_last() =~= all.take(i as int));
            assert(all.take(i + 1).last() == keys@[i as int]@);
            assert(all[i as int] == keys@[i as int]@);
            assert(all.to_set().contains(all[i as int]));
            if let Some(v) = env.get(keys[i].as_str()) {
                add_word(&mut argv, "-e");
                add_word(&mut argv, cat3(keys[i].as_str(), "=", v.as_str()).as_str());
            }
            i += 1;
        }
        assert(all.take(i as int) =~= all);
        add_word(&mut argv, spec.image.as_str());
        let ghost before2 = before + env_words(all, vars) + seq![spec.image@];
        let ghost command = text::texts(spec.command@);
        let mut j: usize = 0;
        assert(text::texts(argv@) =~= before2 + command.take(0));
        while j < spec.command.len()
            invariant
                j <= spec.command@.len(),
                command == text::texts(spec.command@),
                text::texts(argv@) =~= before2 + command.take(j as int),
            decreases spec.command@.len() - j,
        {
            add_word(&mut argv, spec.command[j].as_str());
            j += 1;
            assert(command.take(j as int) =~= command.take(j - 1).push(
                spec.command@[j - 1]@,
            ));
        }
        assert(command.take(j as int) =~= command);
        argv
    }

    /// The words that ask podman what a container is doing.
    pub fn inspect_argv(id: &str) -> (r: Vec<String>)
        ensures
            text::texts(r@) == seq![
                "inspect"@,
                "--format"@,
                "{{.State.Running}}|{{.State.ExitCode}}|{{range .NetworkSettings.Networks}}{{.IPAddress}}{{end}}"@,
                id@,
            ],
    {
        let words: [&str; 4] = [
            "inspect",
            "--format",
            "{{.State.Running}}|{{.State.ExitCode}}|{{range .NetworkSettings.Networks}}{{.IPAddress}}{{end}}",
            id,
        ];
        let r = words_of(&words);
        assert(text::texts(r@) =~= seq![
            "inspect"@,
            "--format"@,
            "{{.State.Running}}|{{.State.ExitCode}}|{{range .NetworkSettings.Networks}}{{.IPAddress}}{{end}}"@,
            id@,
        ]);
        r
    }

    /// The words that ask podman whether a network is there.
    pub fn network_exists_argv(name: &str) -> (r: Vec<String>)
        ensures
            text::texts(r@) == seq!["network"@, "exists"@, name@],
    {
        let words: [&str; 3] = ["network", "exists", name];
        let r = words_of(&words);
        assert(text::texts(r@) =~= seq!["network"@, "exists"@, name@]);
        r
    }

    /// The words that ask podman to make a network.
    pub fn network_create_argv(name: &str) -> (r: Vec<String>)
        ensures
            text::texts(r@) == seq!["network"@, "create"@, name@],
    {
        let words: [&str; 3] = ["network", "create", name];
        let r = words_of(&words);
        assert(text::texts(r@) =~= seq!["network"@, "create"@, name@]);
        r
    }

    /// The words that ask podman to stop a container.
    pub fn stop_argv(id: &str) -> (r: Vec<String>)
        ensures
            text::texts(r@) == seq!["stop"@, id@],
    {
        let words: [&str; 2] = ["stop", id];
        let r = words_of(&words);
        assert(text::texts(r@) =~= seq!["stop"@, id@]);
        r
    }

    /// The words that ask podman to remove a container, whatever it is doing.
    pub fn rm_argv(id: &str) -> (r: Vec<String>)
        ensures
            text::texts(r@) == seq!["rm"@, "-f"@, id@],
    {
        let words: [&str; 3] = ["rm", "-f", id];
        let r = words_of(&words);
        assert(text::texts(r@) =~= seq!["rm"@, "-f"@, id@]);
        r
    }

    /// The words that ask podman for a container's log.
    pub fn logs_argv(id: &str, opts: &LogOptions) -> (r: Vec<String>)
        ensures
            text::texts(r@) == seq!["logs"@] + (match opts.tail {
                Some(n) => seq!["--tail"@, number::decimal(n as int)],
                None => Seq::empty(),
            }) + (if opts.timestamps {
                seq!["--timestamps"@]
            } else {
                Seq::empty()
            }) + seq![id@],
    {
        let words: [&str; 1] = ["logs"];
        let mut argv = words_of(&words);
        assert(text::texts(argv@) =~= seq!["logs"@]);
        if let Some(n) = opts.tail {
            add_word(&mut argv, "--tail");
            add_word(&mut argv, decimal_u64(n as u64).as_str());
        }
        if opts.timestamps {
            add_word(&mut argv, "--timestamps");
        }
        add_word(&mut argv, id);
        argv
    }

    /// What podman's inspection says of a container.
    pub fn parse_inspect(container_id: &str, text: &str) -> (r: Result<
        ContainerStatus,
        KubeletError,
    >)
        ensures
            match inspected(text@) {
                Some(seen) => r matches Ok(s) && status_is(s, container_id@, seen),
                None => r matches Err(e) && error::backend_error(
                    e,
                    "podman inspect output unexpected shape: "@ + scan::trimmed(text@),
                ),
            },
    {
        let text = trim(text);
        let parts = split(text.as_str(), '|');
        let ghost all = text::texts(parts@);
        if parts.len() < 3 {
            return Err(
                KubeletError::Backend(
                    cat2("podman inspect output unexpected shape: ", text.as_str()),
                ),
            );
        }
        assert(all[0] == parts@[0]@ && all[1] == parts@[1]@ && all[2] == parts@[2]@);
        let running = same(parts[0].as_str(), "true");
        let exit_code = parse_i32(parts[1].as_str());
        let pod_ip = if parts[2].as_str().is_empty() {
            None
        } else {
            Some(parts[2].clone())
        };
        Ok(ContainerStatus { container_id: container_id.to_owned(), running, pod_ip, exit_code })
    }

    /// What comes next until the network is there, where podman was asked whether it is and
    /// answered `exists`, and was asked to make it and answered `created`.
    pub fn ensure_network(&self, exists: Option<bool>, created: Option<&CommandOutput>) -> (r:
        NetworkStep)
        ensures
            match network_name(self.network) {
                None => r is Ready,
                Some(name) => match exists {
                    None => r matches NetworkStep::Check(argv) && text::texts(argv@) == seq![
                        "network"@,
                        "exists"@,
                        name,
                    ],
                    Some(true) => r is Ready,
                    Some(false) => match created {
                        None => r matches NetworkStep::Create(argv) && text::texts(argv@) == seq![
                            "network"@,
                            "create"@,
                            name,
                        ],
                        Some(out) => if out.success || network_was_there(
                            text::lossy_text(out.stderr@),
                        ) {
                            r is Ready
                        } else {
                            r matches NetworkStep::Failed(e) && error::backend_error(
                                e,
                                network_failure(name, *out),
                            )
                        },
                    },
                },
            },
    {
        let name = match self.network.name() {
            Some(n) => n,
            None => {
                return NetworkStep::Ready;
            },
        };
        match exists {
            None => NetworkStep::Check(PodmanBackend::network_exists_argv(name)),
            Some(there) => {
                if there {
                    return NetworkStep::Ready;
                }
                match created {
                    None => NetworkStep::Create(PodmanBackend::network_create_argv(name)),
                    Some(out) => {
                        if out.success {
                            return NetworkStep::Ready;
                        }
                        let stderr = decode_lossy(out.stderr.as_slice());
                        if contains(stderr.as_str(), "already exists") || contains(
                            stderr.as_str(),
                            "already used",
                        ) {
                            return NetworkStep::Ready;
                        }
                        NetworkStep::Failed(
                            KubeletError::Backend(
                                cat6(
                                    "podman network create ",
                                    debug_of(name).as_str(),
                                    " failed (status ",
                                    code_text_of(out.code).as_str(),
                                    "): ",
                                    stderr.as_str(),
                                ),
                            ),
                        )
                    },
                }
            },
        }
    }

    /// The id of the container that `podman run` started.
    pub fn started(spec: &ContainerSpec, out: &CommandOutput) -> (r: Result<String, KubeletError>)
        ensures
            if out.success {
                r matches Ok(id) && id@ == scan::trimmed(text::lossy_text(out.stdout@))
            } else {
                let words = text::lossy_text(out.stderr@);
                if scan::holds(words, "already in use"@) {
                    r matches Err(e) && error::backend_error(
                        e,
                        "podman run name conflict for "@ + text::debug_text(spec.name@)
                            + ": a container with this name already exists (leftover from a prior run); stderr: "@
                            + words,
                    )
                } else {
                    r matches Err(e) && error::backend_error(
                        e,
                        "podman run failed (status "@ + code_text(out.code) + "): "@ + words,
                    )
                }
            },
    {
        if !out.success {
            let stderr = decode_lossy(out.stderr.as_slice());
            if contains(stderr.as_str(), "already in use") {
                return Err(
                    KubeletError::Backend(
                        cat4(
                            "podman run name conflict for ",
                            debug_of(spec.name.as_str()).as_str(),
                            ": a container with this name already exists (leftover from a prior run); stderr: ",
                            stderr.as_str(),
                        ),
                    ),
                );
            }
            return Err(
                KubeletError::Backend(
                    cat4(
                        "podman run failed (status ",
                        code_text_of(out.code).as_str(),
                        "): ",
                        stderr.as_str(),
                    ),
                ),
            );
        }
        Ok(trim(decode_lossy(out.stdout.as_slice()).as_str()))
    }

    /// What is said of a container that was just started, where its inspection said this. A
    /// container whose address cannot be read yet is up all the same.
    pub fn started_status(
        container_id: &str,
        observed: Result<Option<ContainerStatus>, KubeletError>,
    ) -> (r: ContainerStatus)
        ensures
            if observed matches Ok(Some(s)) && s.running {
                observed == Ok::<Option<ContainerStatus>, KubeletError>(Some(r))
            } else {
                r.container_id@ == container_id@ && r.running && r.pod_ip is None
                    && r.exit_code is None
            },
    {
        if let Ok(Some(s)) = observed {
            if s.running {
                return s;
            }
        }
        ContainerStatus {
            container_id: container_id.to_owned(),
            running: true,
            pod_ip: None,
            exit_code: None,
        }
    }

    /// What podman's answer to an inspection says of a container.
    pub fn status(container_id: &str, out: &CommandOutput) -> (r: Result<
        Option<ContainerStatus>,
        KubeletError,
    >)
        ensures
            inspection_is(r, container_id@, *out),
    {
        if !out.success {
            let stderr = decode_lossy(out.stderr.as_slice());
            if contains(stderr.as_str(), "no such container") || contains(
                stderr.as_str(),
                "not found",
            ) {
                return Ok(None);
            }
            return Err(
                KubeletError::Backend(cat2("podman inspect failed: ", stderr.as_str())),
            );
        }
        let text = decode_lossy(out.stdout.as_slice());
        match PodmanBackend::parse_inspect(container_id, text.as_str()) {
            Ok(s) => Ok(Some(s)),
            Err(e) => Err(e),
        }
    }

    /// What podman's answer to a stop means.
    pub fn stopped(out: &CommandOutput) -> (r: Result<(), KubeletError>)
        ensures
            if out.success {
                r is Ok
            } else {
                r matches Err(e) && error::backend_error(
                    e,
                    "podman stop failed: "@ + text::lossy_text(out.stderr@),
                )
            },
    {
        if out.success {
            Ok(())
        } else {
            Err(
                KubeletError::Backend(
                    cat2(
                        "podman stop failed: ",
                        decode_lossy(out.stderr.as_slice()).as_str(),
                    ),
                ),
            )
        }
    }

    /// What podman's answer to a removal means.
    pub fn removed(out: &CommandOutput) -> (r: Result<(), KubeletError>)
        ensures
            if out.success {
                r is Ok
            } else {
                r matches Err(e) && error::backend_error(
                    e,
                    "podman rm failed: "@ + text::lossy_text(out.stderr@),
                )
            },
    {
        if out.success {
            Ok(())
        } else {
            Err(
                KubeletError::Backend(
                    cat2("podman rm failed: ", decode_lossy(out.stderr.as_slice()).as_str()),
                ),
            )
        }
    }

    /// The log in podman's answer.
    pub fn logs(container_id: &str, out: &CommandOutput) -> (r: Result<String, KubeletError>)
        ensures
            if out.success {
                r matches Ok(s) && s@ == text::lossy_text(out.stdout@)
            } else {
                r matches Err(e) && error::backend_error(
                    e,
                    "podman logs failed for "@ + container_id@ + ": "@ + text::lossy_text(
                        out.stderr@,
                    ),
                )
            },
    {
        if out.success {
            Ok(decode_lossy(out.stdout.as_slice()))
        } else {
            Err(
                KubeletError::Backend(
                    cat4(
                        "podman logs failed for ",
                        container_id,
                        ": ",
                        decode_lossy(out.stderr.as_slice()).as_str(),
                    ),
                ),
            )
        }
    }
}

/// The variables by which a program in a container finds the API server. What the container sets
/// itself stays.
pub open spec fn with_service(
    vars: Map<Seq<char>, Seq<char>>,
    host: Seq<char>,
    port: int,
) -> Map<Seq<char>, Seq<char>> {
    let a = if vars.dom().contains("KUBERNETES_SERVICE_HOST"@) {
        vars
    } else {
        vars.insert("KUBERNETES_SERVICE_HOST"@, host)
    };
    if a.dom().contains("KUBERNETES_SERVICE_PORT"@) {
        a
    } else {
        a.insert("KUBERNETES_SERVICE_PORT"@, number::decimal(port))
    }
}

/// Adds the variables by which a program in a container finds the API server.
pub fn inject_kubernetes_service_env(env: &mut Table<String>, host: &str, port: u16)
    ensures
        crate::env_ref::variables(*final(env)) == with_service(
            crate::env_ref::variables(*old(env)),
            host@,
            port as int,
        ),
{
    let ghost v0 = crate::env_ref::variables(*env);
    if !env.contains_key("KUBERNETES_SERVICE_HOST") {
        env.insert("KUBERNETES_SERVICE_HOST", host.to_owned());
        assert(crate::env_ref::variables(*env) =~= v0.insert("KUBERNETES_SERVICE_HOST"@, host@));
    }
    let ghost v1 = crate::env_ref::variables(*env);
    if !env.contains_key("KUBERNETES_SERVICE_PORT") {
        env.insert("KUBERNETES_SERVICE_PORT", decimal_u64(port as u64));
        assert(crate::env_ref::variables(*env) =~= v1.insert(
            "KUBERNETES_SERVICE_PORT"@,
            number::decimal(port as int),
        ));
    }
}

/// The variables of a container, with those by which it finds the API server where that is known.
pub open spec fn served(
    vars: Map<Seq<char>, Seq<char>>,
    service: Option<(String, u16)>,
) -> Map<Seq<char>, Seq<char>> {
    match service {
        Some((host, port)) => with_service(vars, host@, port as int),
        None => vars,
    }
}

/// The variables of a container, with those by which it finds the API server where that is known.
pub fn with_service_env(env: &Table<String>, service: &Option<(String, u16)>) -> (r: Table<String>)
    ensures
        crate::env_ref::variables(r) == served(crate::env_ref::variables(*env), *service),
{
    let mut out = env.copy();
    if let Some((host, port)) = service {
        inject_kubernetes_service_env(&mut out, host.as_str(), *port);
    }
    out
}

// ---- laws ----------------------------------------------------------------------------------

/// No two containers that a fake runtime starts have the same id.
pub proof fn fake_ids_differ(m: nat, n: nat)
    requires
        m != n,
    ensures
        fake_id(m) != fake_id(n),
{
    number::hex8_differs(m, n);
    assert(fake_id(m).skip("fake-"@.len() as int) =~= number::hex8(m));
    assert(fake_id(n).skip("fake-"@.len() as int) =~= number::hex8(n));
}

/// What is said of a container is all of it, each part from its own place.
pub proof fn a_container_is_seen_whole(s: ContainerSpec, t: ContainerStatus)
    ensures
        s@.name == s.name@,
        s@.image == s.image@,
        s@.env.dom() == s.env@.dom(),
        forall|k: Seq<char>| #[trigger]
            s.env@.dom().contains(k) ==> s@.env[k] == s.env@[k]@,
        s@.command.len() == s.command@.len(),
        forall|i: int| 0 <= i < s.command@.len() ==> (#[trigger] s@.command[i]) == s.command@[i]@,
        s@.network_aliases == text::texts(s.network_aliases@),
        s@.host_add == text::texts(s.host_add@),
        s@.pull_policy == s.pull_policy,
        s@.mounts == s.mounts@,
        s@.security_context is Some == s.security_context is Some,
        s.security_context matches Some(c) ==> s@.security_context == Some(c@),
        s@.resources == s.resources@,
        s@.init_kind == s.init_kind,
        s@.pod.namespace == s.pod.namespace@,
        s@.pod.name == s.pod.name@,
        s@.pod.uid == s.pod.uid@,
        s@.pod.container_name == s.pod.container_name@,
        s@.pod.init == s.pod.init,
        s@.termination_grace == s.termination_grace@,
{
    assert(s@.env.dom() =~= s.env@.dom());
}

/// An image is fetched each time only where the manifest says `Always`, and not at all only where it
/// says `Never`; in every other case where it is missing.
pub proof fn when_an_image_is_fetched(name: Option<Seq<char>>)
    ensures
        pull_resolved(name) is Always <==> name == Some("Always"@),
        pull_resolved(name) is Never <==> name == Some("Never"@),
        !(pull_resolved(name) is Always) && !(pull_resolved(name) is Never) ==> pull_resolved(
            name,
        ) is IfNotPresent,
{
    reveal_strlit("Always");
    reveal_strlit("Never");
    assert("Always"@.len() != "Never"@.len());
}

proof fn env_words_are(keys: Seq<Seq<char>>, vars: Map<Seq<char>, Seq<char>>, i: int)
    requires
        0 <= i < keys.len(),
    ensures
        env_words(keys, vars).len() == 2 * keys.len(),
        env_words(keys, vars)[2 * i] == "-e"@,
        env_words(keys, vars)[2 * i + 1] == keys[i] + "="@ + vars[keys[i]],
    decreases keys.len(),
{
    let front = keys.drop_last();
    let rest = env_words(front, vars);
    if front.len() > 0 {
        env_words_are(front, vars, 0);
    }
    if i < front.len() {
        env_words_are(front, vars, i);
        assert(env_words(keys, vars)[2 * i] == rest[2 * i]);
        assert(env_words(keys, vars)[2 * i + 1] == rest[2 * i + 1]);
    }
}

proof fn env_words_count(keys: Seq<Seq<char>>, vars: Map<Seq<char>, Seq<char>>)
    ensures
        env_words(keys, vars).len() == 2 * keys.len(),
    decreases keys.len(),
{
    if keys.len() > 0 {
        env_words_count(keys.drop_last(), vars);
    }
}

proof fn flagged_are(flag: Seq<char>, words: Seq<Seq<char>>, i: int)
    ensures
        flagged(flag, words).len() == 2 * words.len(),
        0 <= i < words.len() ==> flagged(flag, words)[2 * i] == flag && flagged(flag, words)[2 * i
            + 1] == words[i],
    decreases words.len(),
{
    if words.len() > 0 {
        let front = words.drop_last();
        flagged_are(flag, front, i);
        let rest = flagged(flag, front);
        if 0 <= i < front.len() {
            assert(flagged(flag, words)[2 * i] == rest[2 * i]);
            assert(flagged(flag, words)[2 * i + 1] == rest[2 * i + 1]);
        }
    }
}

/// What podman is told to run: in the background, on the network under each of its names where there
/// is one, fetched as the policy says, under its name, with each variable, and then its image and
/// after that the words of its command, and nothing else.
pub proof fn what_podman_is_told(
    b: PodmanBackend,
    spec: ContainerSpec,
    keys: Seq<Seq<char>>,
    i: int,
    a: int,
)
    requires
        text::ascending(keys),
        keys.to_set() == served(crate::env_ref::variables(spec.env), b.kubernetes_service).dom(),
        0 <= i < keys.len(),
        0 <= a < spec.network_aliases@.len(),
    ensures
        ({
            let w = run_words(b, spec);
            let vars = served(crate::env_ref::variables(spec.env), b.kubernetes_service);
            let net = match b.network {
                PodmanNetwork::Named(_) => 2 + 2 * spec.network_aliases@.len() as int,
                PodmanNetwork::Default => 0,
            };
            let at = 6 + net + 2 * keys.len() as int;
            &&& w.len() == at + 1 + spec.command@.len()
            &&& w[0] == "run"@
            &&& w[1] == "-d"@
            &&& b.network matches PodmanNetwork::Named(n) ==> w[2] == "--network"@ && w[3] == n@
                && w[4 + 2 * a] == "--network-alias"@ && w[5 + 2 * a] == spec.network_aliases@[a]@
            &&& w[2 + net] == "--pull"@
            &&& w[3 + net] == pull_flag(b.pull_policy)
            &&& w[4 + net] == "--name"@
            &&& w[5 + net] == spec.name@
            &&& w[6 + net + 2 * i] == "-e"@
            &&& w[7 + net + 2 * i] == keys[i] + "="@ + vars[keys[i]]
            &&& w[at] == spec.image@
            &&& w.skip(at + 1) == text::texts(spec.command@)
        }),
{
    let vars = served(crate::env_ref::variables(spec.env), b.kubernetes_service);
    text::a_sorted_list_is_the_sorted_set(keys, vars.dom());
    let p0 = seq!["run"@, "-d"@];
    let names = text::texts(spec.network_aliases@);
    let p1 = match network_name(b.network) {
        Some(net) => seq!["--network"@, net] + flagged("--network-alias"@, names),
        None => Seq::empty(),
    };
    let p2 = seq!["--pull"@, pull_flag(b.pull_policy), "--name"@, spec.name@];
    let p3 = env_words(keys, vars);
    let p4 = seq![spec.image@];
    let p5 = text::texts(spec.command@);
    let w = p0 + p1 + p2 + p3 + p4 + p5;
    assert(run_words(b, spec) == w);
    flagged_are("--network-alias"@, names, a);
    env_words_are(keys, vars, i);
    let net = p1.len() as int;
    match b.network {
        PodmanNetwork::Named(n) => {
            assert(p1.len() == 2 + 2 * names.len());
            assert(w[2] == p1[0]);
            assert(w[3] == p1[1]);
            assert(w[4 + 2 * a] == p1[2 + 2 * a]);
            assert(w[5 + 2 * a] == p1[3 + 2 * a]);
        },
        PodmanNetwork::Default => {},
    }
    assert(w[2 + net] == p2[0]);
    assert(w[3 + net] == p2[1]);
    assert(w[4 + net] == p2[2]);
    assert(w[5 + net] == p2[3]);
    assert(w[6 + net + 2 * i] == p3[2 * i]);
    assert(w[7 + net + 2 * i] == p3[2 * i + 1]);
    let at = 6 + net + 2 * keys.len() as int;
    assert(w[at] == p4[0]);
    assert(w.skip(at + 1) =~= p5);
}

/// The variables of a container are its own. Where the API server is known, those by which it is found
/// come with them, unless the container has its own.
pub proof fn which_variables_a_container_gets(
    vars: Map<Seq<char>, Seq<char>>,
    host: Seq<char>,
    port: int,
    name: Seq<char>,
)
    ensures
        ({
            let got = with_service(vars, host, port);
            &&& vars.dom().contains(name) ==> got.dom().contains(name) && got[name] == vars[name]
            &&& got.dom().contains("KUBERNETES_SERVICE_HOST"@)
            &&& got.dom().contains("KUBERNETES_SERVICE_PORT"@)
            &&& !vars.dom().contains("KUBERNETES_SERVICE_HOST"@)
                ==> got["KUBERNETES_SERVICE_HOST"@] == host
            &&& !vars.dom().contains("KUBERNETES_SERVICE_PORT"@)
                ==> got["KUBERNETES_SERVICE_PORT"@] == number::decimal(port)
            &&& !vars.dom().contains(name) && name != "KUBERNETES_SERVICE_HOST"@ && name
                != "KUBERNETES_SERVICE_PORT"@ ==> !got.dom().contains(name)
        }),
        served(vars, None) == vars,
        forall|h: String, p: u16|
            h@ == host && p == port ==> #[trigger] served(vars, Some((h, p))) == with_service(
                vars,
                host,
                port,
            ),
{
    reveal_strlit("KUBERNETES_SERVICE_HOST");
    reveal_strlit("KUBERNETES_SERVICE_PORT");
    assert("KUBERNETES_SERVICE_HOST"@[19] == 'H');
    assert("KUBERNETES_SERVICE_PORT"@[19] == 'P');
}

/// What podman says of a container, its three parts between bars: whether it is up, with which code it
/// ended where that is a number, and its address where it has one.
pub proof fn what_an_inspection_says(
    text: Seq<char>,
    up: Seq<char>,
    code: Seq<char>,
    ip: Seq<char>,
)
    requires
        scan::trimmed(text) == up + seq!['|'] + code + seq!['|'] + ip,
        forall|i: int| 0 <= i < up.len() ==> (#[trigger] up[i]) != '|',
        forall|i: int| 0 <= i < code.len() ==> (#[trigger] code[i]) != '|',
        forall|i: int| 0 <= i < ip.len() ==> (#[trigger] ip[i]) != '|',
    ensures
        inspected(text) matches Some((running, exit, address)) && {
            &&& running <==> up == "true"@
            &&& exit == match number::read_int(code) {
                Some(n) => if i32::MIN <= n <= i32::MAX {
                    Some(n)
                } else {
                    None
                },
                None => None::<int>,
            }
            &&& ip.len() == 0 ==> address is None
            &&& ip.len() > 0 ==> address == Some(ip)
        },
{
    let parts = seq![up, code, ip];
    let two = seq![code, ip];
    assert(parts =~= seq![up] + two);
    assert(two =~= seq![code] + seq![ip]);
    scan::glued_begins(code, seq![ip], seq!['|']);
    scan::how_texts_are_put_together(Seq::empty(), seq!['|'], ip);
    scan::glued_begins(up, two, seq!['|']);
    assert(scan::glued(parts, seq!['|']) =~= scan::trimmed(text));
    assert forall|k: int, j: int| 0 <= k < parts.len() && 0 <= j < parts[k].len() implies #[trigger] parts[k][j]
        != '|' by {
        if k == 0 {
            assert(parts[0] == up);
        } else if k == 1 {
            assert(parts[1] == code);
        } else {
            assert(parts[2] == ip);
        }
    }
    scan::what_was_put_together_comes_apart(parts, '|');
}

/// A container is known by what podman says of it. It is not there only where podman says so; that
/// podman failed in any other way, or cannot be understood, is an error.
pub proof fn what_podman_knows(
    r: Result<Option<ContainerStatus>, KubeletError>,
    id: Seq<char>,
    out: CommandOutput,
)
    requires
        inspection_is(r, id, out),
    ensures
        r matches Ok(Some(s)) ==> {
            let seen = inspected(text::lossy_text(out.stdout@));
            &&& out.success
            &&& seen is Some
            &&& s.container_id@ == id
            &&& s.running == seen.unwrap().0
            &&& s.exit_code matches Some(c) ==> seen.unwrap().1 == Some(c as int)
            &&& s.exit_code is None ==> seen.unwrap().1 is None
            &&& s.pod_ip matches Some(ip) ==> seen.unwrap().2 == Some(ip@)
            &&& s.pod_ip is None ==> seen.unwrap().2 is None
        },
        r matches Ok(None) ==> !out.success && (scan::holds(
            text::lossy_text(out.stderr@),
            "no such container"@,
        ) || scan::holds(text::lossy_text(out.stderr@), "not found"@)),
        out.success && inspected(text::lossy_text(out.stdout@)) is Some ==> r is Ok,
        !out.success && !scan::holds(text::lossy_text(out.stderr@), "no such container"@)
            && !scan::holds(text::lossy_text(out.stderr@), "not found"@) ==> r is Err,
        out.success && inspected(text::lossy_text(out.stdout@)) is None ==> r is Err,
{
}

/// A container of a fake runtime that ends is no longer up, with the code that was given, and keeps the
/// rest; no other container changes, and none comes or goes.
pub proof fn one_end_is_one_end(
    containers: Map<Seq<char>, ContainerStatus>,
    id: Seq<char>,
    code: i32,
    other: Seq<char>,
)
    ensures
        ({
            let after = ended(containers, id, code);
            &&& after.dom() == containers.dom()
            &&& containers.dom().contains(id) ==> !after[id].running && after[id].exit_code == Some(
                code,
            ) && after[id].container_id == containers[id].container_id && after[id].pod_ip
                == containers[id].pod_ip
            &&& other != id && containers.dom().contains(other) ==> after[other]
                == containers[other]
        }),
{
    assert(ended(containers, id, code).dom() =~= containers.dom());
}

/// The containers that are up are counted, each once.
pub proof fn those_that_are_up_are_counted(
    ids: Seq<Seq<char>>,
    containers: Map<Seq<char>, ContainerStatus>,
)
    ensures
        up_among(ids, containers) == ids.filter(|id: Seq<char>| containers[id].running).len(),
    decreases ids.len(),
{
    reveal(Seq::filter);
    if ids.len() > 0 {
        those_that_are_up_are_counted(ids.drop_last(), containers);
    }
}

/// The log of a container of a fake runtime is what was laid down for its name, or a line that says its
/// name. All of it is returned where no part is asked for, and none of it where none is.
pub proof fn what_a_fake_log_holds(
    seeds: Map<Seq<char>, Seq<char>>,
    name: Seq<char>,
    buf: Seq<char>,
    n: u32,
)
    ensures
        seeds.dom().contains(name) ==> fake_log(seeds, name) == seeds[name],
        !seeds.dom().contains(name) ==> fake_log(seeds, name) == name + " log line\n"@,
        fake_tail(buf, None) == buf,
        fake_tail(buf, Some(0)).len() == 0,
        n > 0 && (buf.len() == 0 || buf.last() != '\n') ==> fake_tail(buf, Some(n))
            == scan::last_lines(buf, n as nat),
        n > 0 && buf.len() > 0 && buf.last() == '\n' && scan::last_lines(buf, n as nat).len() > 0
            ==> fake_tail(buf, Some(n)) == scan::last_lines(buf, n as nat) + seq!['\n'],
{
    reveal_strlit("\n");
    assert("\n"@ =~= seq!['\n']);
}

/// A network that was not made is there where podman says that it exists or is used already, and only
/// there.
pub proof fn when_a_network_was_there(a: Seq<char>, b: Seq<char>, stderr: Seq<char>)
    ensures
        network_was_there(a + "already exists"@ + b),
        network_was_there(a + "already used"@ + b),
        !scan::holds(stderr, "already exists"@) && !scan::holds(stderr, "already used"@)
            ==> !network_was_there(stderr),
{
    scan::what_is_held(a, "already exists"@, b);
    scan::what_is_held(a, "already used"@, b);
}

/// The ids and addresses of a fake runtime go by the number of the start.
pub proof fn how_fake_containers_are_known(n: nat)
    ensures
        fake_id(n) == "fake-"@ + number::hex8(n),
        fake_ip(n) == "10.42.0."@ + number::decimal((n % 250) as int),
        fake_ip(n + 250) == fake_ip(n),
{
}

/// A code is printed as what it is, and the lack of one as that.
pub proof fn how_a_code_is_printed(c: i32)
    ensures
        code_text(Some(c)) == "Some("@ + number::decimal(c as int) + ")"@,
        code_text(None) == "None"@,
{
}

/// Each policy has its own word on the command line.
pub proof fn what_a_policy_is_called()
    ensures
        pull_flag(PullPolicy::Never) == "never"@,
        pull_flag(PullPolicy::Missing) == "missing"@,
        pull_flag(PullPolicy::IfNotPresent) == "newer"@,
        pull_flag(PullPolicy::Always) == "always"@,
{
}

} // verus!
