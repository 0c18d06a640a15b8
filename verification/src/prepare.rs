//! Getting a pod ready. Its manifest, its probes, its names, its token and its volumes are seen
//! to, in this order, before the first of its containers is started: each step hands over what the
//! next one needs, and the last one the pass that starts the containers.

use vstd::prelude::*;
use crate::backend::{ContainerSpec, MountSource, ResolvedMount};
use crate::error::KubeletError;
use crate::init_pass::{self, InitPass, InitStageView, InitView};
use crate::json::Json;
use crate::kubelet::{self, Kubelet, SaOutcome, SaRequest};
use crate::lifecycle::{self, PodPhase};
use crate::pod_env::EnvSources;
use crate::pod_spec::{self, pod_restart_policy};
use crate::pod_status;
use crate::probes::{ContainerProbeState, ProbeFaults};
use crate::report::Tally;
use crate::resource::{self, ResourceKey};
use crate::running::{self, RunningPass};
use crate::services::{self, service_name_resolution};
use crate::startup::{
    self,
    empty_dir_names,
    pod_probes,
    projection_error,
    route,
    service_account,
    service_account_mount,
    volumes_pending,
    Route,
    StartPass,
    StartStage,
    StartView,
    Surroundings,
    Way,
    SA_MOUNT_PATH,
};
use crate::table::Table;
use crate::text;
use crate::time::{self, Instant};

verus! {

// ---- the manifest --------------------------------------------------------------------------

/// A pod whose containers are known.
#[derive(Debug)]
pub struct Bare {
    /// The containers of the manifest, in order.
    pub specs: Vec<(String, ContainerSpec)>,
    pub tally: Tally,
}

/// What a pod that is to be started needs next.
#[derive(Debug)]
pub enum Begin {
    /// Nothing: it cannot be run, for this reason, and is passed over.
    Skip { error: KubeletError, tally: Tally },
    /// Its init containers.
    Init { init_specs: Vec<(String, ContainerSpec)>, tally: Tally },
    /// Its containers.
    App(Bare),
}

/// Begins to get a pod ready. One that cannot be run is counted as skipped.
pub fn begin_start(
    kubelet: &Kubelet,
    key: &ResourceKey,
    pod: &Json,
    sources: &EnvSources,
    tally: Tally,
) -> (r: Begin)
    ensures
        match startup::way_of(kubelet@.local, key@, pod@, sources@) {
            Way::Skip(reason) => r matches Begin::Skip { error, tally: t } && startup::skips_for(
                error,
                key@,
                reason,
            ) && t@ == tally@.skipped(),
            Way::Init(init) => r matches Begin::Init { init_specs, tally: t }
                && pod_spec::spec_views(init_specs@) == init && t@ == tally@,
            Way::App { specs, .. } => r matches Begin::App(bare) && pod_spec::spec_views(
                bare.specs@,
            ) == specs && bare.tally@ == tally@,
        },
{
    let mut tally = tally;
    match route(kubelet, key, pod, sources) {
        Route::Skip(error) => {
            tally.skipped();
            Begin::Skip { error, tally }
        },
        Route::Init { init_specs } => Begin::Init { init_specs, tally },
        Route::App { specs, .. } => Begin::App(Bare { specs, tally }),
    }
}

/// What a pod that was started needs next.
#[derive(Debug)]
pub enum BeginRunning {
    /// Nothing: it cannot be run any more, for this reason, and is passed over.
    Skip { error: KubeletError, tally: Tally },
    /// Its init containers.
    Init { init_specs: Vec<(String, ContainerSpec)>, tally: Tally },
    /// That its containers are looked after.
    Pass { pass: RunningPass, init_specs: Vec<(String, ContainerSpec)> },
}

/// Begins to look after a pod. One that cannot be run any more is counted as skipped.
pub fn begin_running(
    kubelet: &Kubelet,
    key: &ResourceKey,
    pod: &Json,
    sources: &EnvSources,
    tally: Tally,
) -> (r: BeginRunning)
    ensures
        match startup::way_of(kubelet@.local, key@, pod@, sources@) {
            Way::Skip(reason) => r matches BeginRunning::Skip { error, tally: t }
                && startup::skips_for(error, key@, reason) && t@ == tally@.skipped(),
            Way::Init(init) => r matches BeginRunning::Init { init_specs, tally: t }
                && pod_spec::spec_views(init_specs@) == init && t@ == tally@,
            Way::App { specs, init_specs: init } => r matches BeginRunning::Pass {
                pass,
                init_specs,
            } && pass@.well_formed() && running::begun(
                pass,
                kubelet@.local,
                key@,
                specs,
                lifecycle::policy_named(pod@.str_at2("spec"@, "restartPolicy"@)),
                tally@,
            ) && pod_spec::spec_views(init_specs@) == init,
        },
{
    let mut tally = tally;
    match route(kubelet, key, pod, sources) {
        Route::Skip(error) => {
            tally.skipped();
            BeginRunning::Skip { error, tally }
        },
        Route::Init { init_specs } => BeginRunning::Init { init_specs, tally },
        Route::App { specs, init_specs } => BeginRunning::Pass {
            pass: RunningPass::begin(kubelet, key, specs, pod_restart_policy(pod), tally),
            init_specs,
        },
    }
}

// ---- the probes ----------------------------------------------------------------------------

/// A pod whose probes can be run.
#[derive(Debug)]
pub struct Checked {
    pub specs: Vec<(String, ContainerSpec)>,
    pub probes: Table<ContainerProbeState>,
    /// When the containers count as started.
    pub now: Instant,
    pub tally: Tally,
}

impl Bare {
    /// Takes in what is wrong with the probes of each container. A pod with one that cannot be run
    /// is passed over before anything of it is started.
    pub fn probed(
        self,
        key: &ResourceKey,
        pod: &Json,
        faults: Vec<ProbeFaults>,
        now: Instant,
    ) -> (r: Result<Checked, (KubeletError, Tally)>)
        requires
            faults@.len() == self.specs@.len(),
        ensures
            r is Err <==> startup::some_faulty(
                startup::container_docs(pod@, self.specs@),
                faults@,
            ),
            r matches Ok(c) ==> {
                &&& c.specs == self.specs
                &&& startup::probe_table(c.probes@, pod@, self.specs@, now)
                &&& c.now == now
                &&& c.tally@ == self.tally@
            },
            r matches Err(e) ==> {
                &&& startup::fault_error(
                    e.0,
                    startup::container_docs(pod@, self.specs@),
                    faults@,
                    resource::label_of(key@),
                )
                &&& e.1@ == self.tally@.skipped()
            },
    {
        let mut tally = self.tally;
        let label = key.label();
        match pod_probes(pod, self.specs.as_slice(), faults, label.as_str(), now) {
            Ok(probes) => Ok(Checked { specs: self.specs, probes, now, tally }),
            Err(e) => {
                tally.skipped();
                Err((e, tally))
            },
        }
    }
}

// ---- the names -----------------------------------------------------------------------------

/// A pod whose names are known.
#[derive(Debug)]
pub struct Named {
    pub specs: Vec<(String, ContainerSpec)>,
    pub probes: Table<ContainerProbeState>,
    pub now: Instant,
    /// The names under which others reach the pod.
    pub aliases: Vec<String>,
    /// The names it resolves without asking anyone, each with its address.
    pub hosts: Vec<String>,
    /// The token that it gets, if it gets one.
    pub token: Option<SaRequest>,
    pub tally: Tally,
}

impl Checked {
    /// Takes in the services of the pod's namespace and those of all.
    pub fn named(
        self,
        key: &ResourceKey,
        pod: &Json,
        own: &[(ResourceKey, Json)],
        all: &[(ResourceKey, Json)],
    ) -> (r: Named)
        ensures
            r.specs == self.specs,
            r.probes == self.probes,
            r.now == self.now,
            text::texts(r.aliases@) == services::alias_names(
                services::service_views(own@),
                resource::namespace_of(key@),
                pod@,
            ),
            text::texts(r.hosts@) == services::host_names(
                services::service_views(all@),
                resource::namespace_of(key@),
            ),
            match r.token {
                Some(q) => startup::automounts(pod@) && q@ == kubelet::sa_of(
                    resource::namespace_of(key@),
                    key@.name,
                    pod@,
                ),
                None => !startup::automounts(pod@),
            },
            r.tally == self.tally,
    {
        let namespace = key.namespace_or_default();
        let names = service_name_resolution(pod, namespace, own, all);
        let token = service_account(namespace, key.name.as_str(), pod);
        Named {
            specs: self.specs,
            probes: self.probes,
            now: self.now,
            aliases: names.0,
            hosts: names.1,
            token,
            tally: self.tally,
        }
    }
}

// ---- the token -----------------------------------------------------------------------------

/// What came of a token.
#[derive(Debug)]
pub enum TokenReply {
    /// There is none for the pod.
    Nothing,
    /// Its files are here.
    Written(MountSource),
    /// It could not be made.
    NotMade,
    /// Its files could not be written, in these words.
    NotWritten(String),
}

impl TokenReply {
    /// What counts of it where the token was made anew.
    pub fn outcome(&self) -> (r: SaOutcome)
        ensures
            r == match self {
                TokenReply::Nothing => SaOutcome::Nothing,
                TokenReply::Written(_) => SaOutcome::Refreshed,
                TokenReply::NotMade => SaOutcome::Failed,
                TokenReply::NotWritten(_) => SaOutcome::Failed,
            },
    {
        match self {
            TokenReply::Nothing => SaOutcome::Nothing,
            TokenReply::Written(_) => SaOutcome::Refreshed,
            TokenReply::NotMade => SaOutcome::Failed,
            TokenReply::NotWritten(_) => SaOutcome::Failed,
        }
    }
}

/// Why a pod is not started for want of its token.
#[derive(Debug)]
pub enum TokenStop {
    /// It could not be made: the pod is passed over.
    Skipped(Tally),
    /// Its files could not be written: the whole pass is broken off, in these words.
    Broken(String),
}

/// A pod that has its token, where it gets one.
#[derive(Debug)]
pub struct Identified {
    pub specs: Vec<(String, ContainerSpec)>,
    pub probes: Table<ContainerProbeState>,
    pub now: Instant,
    pub aliases: Vec<String>,
    pub hosts: Vec<String>,
    /// The mount of the files of its service account, where it has one.
    pub sa_mount: Option<ResolvedMount>,
    pub tally: Tally,
}

/// Whether this is the mount of files that are here, which no container can write.
pub open spec fn is_account_mount(m: ResolvedMount, source: MountSource) -> bool {
    &&& m.source == source
    &&& m.mount_path@ == SA_MOUNT_PATH@
    &&& m.read_only
    &&& m.sub_path is None
}

impl Named {
    /// Takes in what came of the token. A pod that should have one and has none is not started.
    pub fn with_token(self, reply: TokenReply) -> (r: Result<Identified, TokenStop>)
        requires
            self.token is None ==> reply is Nothing,
        ensures
            match reply {
                TokenReply::Nothing => r matches Ok(p) && p.sa_mount is None,
                TokenReply::Written(source) => r matches Ok(p) && (p.sa_mount matches Some(m)
                    && is_account_mount(m, source)),
                TokenReply::NotMade => r matches Err(TokenStop::Skipped(t)) && t@
                    == self.tally@.skipped(),
                TokenReply::NotWritten(words) => r matches Err(TokenStop::Broken(text)) && text@
                    == "materialize ServiceAccount projection: "@ + words@,
            },
            r matches Ok(p) ==> {
                &&& p.specs == self.specs
                &&& p.probes == self.probes
                &&& p.now == self.now
                &&& p.aliases == self.aliases
                &&& p.hosts == self.hosts
                &&& p.tally == self.tally
            },
    {
        let sa_mount = match reply {
            TokenReply::Nothing => None,
            TokenReply::Written(source) => Some(service_account_mount(source)),
            TokenReply::NotMade => {
                let mut tally = self.tally;
                tally.skipped();
                return Err(TokenStop::Skipped(tally));
            },
            TokenReply::NotWritten(words) => {
                return Err(TokenStop::Broken(projection_error(words.as_str())));
            },
        };
        Ok(
            Identified {
                specs: self.specs,
                probes: self.probes,
                now: self.now,
                aliases: self.aliases,
                hosts: self.hosts,
                sa_mount,
                tally: self.tally,
            },
        )
    }
}

// ---- the volumes ---------------------------------------------------------------------------

/// The volumes of a pod.
#[derive(Debug)]
pub struct Volumes {
    pub sources: Table<MountSource>,
    /// What each container mounts, where the pod has all of that.
    pub mounts: Vec<Option<Vec<ResolvedMount>>>,
}

/// What a pod comes to that was got ready.
#[derive(Debug)]
pub enum Ready {
    /// Its volumes are not there. This is published of it, and nothing of it is started.
    Pending { status: Json, tally: Tally },
    /// Its containers are started.
    Start(StartPass),
}

impl Identified {
    /// Takes in the volumes of the pod, or what it waits for instead.
    pub fn with_volumes(
        self,
        kubelet: &Kubelet,
        key: &ResourceKey,
        pod: &Json,
        volumes: Result<Volumes, String>,
        stamp: &str,
    ) -> (r: Ready)
        requires
            volumes matches Ok(v) ==> v.mounts@.len() == self.specs@.len(),
        ensures
            match volumes {
                Err(reason) => r matches Ready::Pending { status, tally } && status@
                    == pod_status::pod_status(
                    pod@,
                    PodPhase::Pending,
                    Seq::empty(),
                    startup::all_waiting(pod_spec::spec_views(self.specs@), reason@),
                    None,
                    true,
                    false,
                    stamp@,
                ) && tally@ == self.tally@.within(time::secs(1)).skipped(),
                Ok(v) => r matches Ready::Start(pass) && pass@.well_formed() && pass@
                    == startup::begun(
                    StartView {
                        key: key@,
                        specs: pod_spec::spec_views(self.specs@),
                        mounts: startup::mount_views(v.mounts@),
                        aliases: text::texts(self.aliases@),
                        hosts: text::texts(self.hosts@),
                        sa_mount: self.sa_mount,
                        empty_dirs: startup::empty_dirs(
                            text::sorted(v.sources@.dom()),
                            v.sources@,
                        ),
                        probes: self.probes@,
                        at: 0,
                        stage: StartStage::Starting,
                        now: self.now,
                        tally: self.tally@,
                    },
                    kubelet@.local,
                ),
            },
    {
        let mut tally = self.tally;
        match volumes {
            Err(reason) => {
                let status = volumes_pending(
                    pod,
                    self.specs.as_slice(),
                    reason.as_str(),
                    stamp,
                    &mut tally,
                );
                Ready::Pending { status, tally }
            },
            Ok(v) => {
                let around = Surroundings {
                    aliases: self.aliases,
                    hosts: self.hosts,
                    sa_mount: self.sa_mount,
                    empty_dirs: empty_dir_names(&v.sources),
                };
                Ready::Start(
                    StartPass::begin(
                        kubelet,
                        key,
                        self.specs,
                        v.mounts,
                        around,
                        self.probes,
                        self.now,
                        tally,
                    ),
                )
            },
        }
    }
}

/// What the init containers of a pod come to that were got ready.
#[derive(Debug)]
pub enum InitReady {
    /// The volumes of the pod are not there. This is published of it, and nothing of it is started.
    Pending { status: Json, tally: Tally },
    /// The init containers are run.
    Pass(InitPass),
}

/// Takes in the services and the volumes of a pod whose init containers are next, or what it waits
/// for instead of volumes. `volumes` says what each init container mounts, or why that is not
/// there.
pub fn begin_init(
    kubelet: &Kubelet,
    key: &ResourceKey,
    pod: &Json,
    init_specs: Vec<(String, ContainerSpec)>,
    own: &[(ResourceKey, Json)],
    all: &[(ResourceKey, Json)],
    volumes: Result<Vec<Result<Vec<ResolvedMount>, String>>, String>,
    stamp: &str,
    tally: Tally,
) -> (r: InitReady)
    requires
        volumes matches Ok(m) ==> m@.len() == init_specs@.len(),
    ensures
        match volumes {
            Err(reason) => r matches InitReady::Pending { status, tally: t } && status@
                == pod_status::pod_status(
                pod@,
                PodPhase::Pending,
                Seq::empty(),
                startup::all_waiting(pod_spec::spec_views(init_specs@), reason@),
                None,
                true,
                false,
                stamp@,
            ) && t@ == tally@.within(time::secs(1)).skipped(),
            Ok(m) => r matches InitReady::Pass(pass) && pass@.well_formed() && init_pass::begun(
                pass,
                kubelet@.local,
                InitView {
                    key: key@,
                    specs: pod_spec::spec_views(init_specs@),
                    before: pass.before@,
                    mounts: init_pass::mount_results(m@),
                    aliases: services::alias_names(
                services::service_views(own@),
                resource::namespace_of(key@),
                pod@,
            ),
                    hosts: services::host_names(
                services::service_views(all@),
                resource::namespace_of(key@),
            ),
                    policy: lifecycle::policy_named(pod@.str_at2("spec"@, "restartPolicy"@)),
                    at: 0,
                    stage: InitStageView::Observing,
                    observations: Seq::empty(),
                    start: Seq::empty(),
                    blocked_on: None,
                    pod_ip: None,
                    statuses: Seq::empty(),
                    tally: tally@,
                },
            ),
        },
{
    let mut tally = tally;
    match volumes {
        Err(reason) => {
            let status = volumes_pending(
                pod,
                init_specs.as_slice(),
                reason.as_str(),
                stamp,
                &mut tally,
            );
            InitReady::Pending { status, tally }
        },
        Ok(mounts) => {
            let names = service_name_resolution(pod, key.namespace_or_default(), own, all);
            InitReady::Pass(
                InitPass::begin(
                    kubelet,
                    key,
                    init_specs,
                    mounts,
                    names.0,
                    names.1,
                    pod_restart_policy(pod),
                    tally,
                ),
            )
        },
    }
}

// ---- laws ----------------------------------------------------------------------------------

/// The files of a service account are found where every program looks for them, all of them, and no
/// container can write them.
pub proof fn where_an_account_is_found(m: ResolvedMount, source: MountSource)
    requires
        is_account_mount(m, source),
    ensures
        m.source == source,
        m.mount_path@ == "/var/run/secrets/kubernetes.io/serviceaccount"@,
        m.read_only,
        m.sub_path is None,
{
}

} // verus!
