//! Volumes of storage drivers: where they are mounted, in which order a driver is called, and
//! which drivers there are.

use vstd::prelude::*;
use crate::backend::MountSource;
use crate::paths::{self, join};
use crate::report::ReconcileReport;
use crate::scan::lists;
use crate::table::Table;
use crate::text::{self, cat3, cat4, cat5};

verus! {

/// Where a driver is reached, and what it can do.
#[derive(Clone, Debug, PartialEq, Eq)]
pub struct RegisteredDriver {
    pub endpoint: String,
    /// Whether a volume is staged on the node before it is published to a pod.
    pub stage_unstage: bool,
    /// What the driver calls this node.
    pub node_id: String,
}

impl RegisteredDriver {
    /// A copy.
    pub fn copy(&self) -> (r: RegisteredDriver)
        ensures
            r == *self,
    {
        RegisteredDriver {
            endpoint: self.endpoint.clone(),
            stage_unstage: self.stage_unstage,
            node_id: self.node_id.clone(),
        }
    }
}

/// The drivers of a node, by name.
#[derive(Debug)]
pub struct DriverTable {
    inner: Table<RegisteredDriver>,
}

impl View for DriverTable {
    type V = Map<Seq<char>, RegisteredDriver>;

    closed spec fn view(&self) -> Map<Seq<char>, RegisteredDriver> {
        self.inner@
    }
}

impl DriverTable {
    /// No drivers.
    pub fn new() -> (r: DriverTable)
        ensures
            r@ == Map::<Seq<char>, RegisteredDriver>::empty(),
    {
        DriverTable { inner: Table::new() }
    }

    /// Puts a driver in, in place of one of its name.
    pub fn insert(&mut self, name: &str, driver: RegisteredDriver)
        ensures
            final(self)@ == old(self)@.insert(name@, driver),
    {
        self.inner.insert(name, driver);
    }

    /// Takes a driver out.
    pub fn remove(&mut self, name: &str)
        ensures
            final(self)@ == old(self)@.remove(name@),
    {
        self.inner.remove(name);
    }

    /// The driver of this name.
    pub fn get(&self, name: &str) -> (r: Option<RegisteredDriver>)
        ensures
            match r {
                Some(d) => self@.dom().contains(name@) && self@[name@] == d,
                None => !self@.dom().contains(name@),
            },
    {
        match self.inner.get(name) {
            Some(d) => Some(d.copy()),
            None => None,
        }
    }

    /// The names of the drivers, in order.
    pub fn names(&self) -> (r: Vec<String>)
        ensures
            text::texts(r@) == text::sorted(self@.dom()),
            text::texts(r@).to_set() == self@.dom(),
    {
        self.inner.keys()
    }
}

// ---- paths ---------------------------------------------------------------------------------

/// Where a volume is staged on this node: one place, however many pods use it.
pub open spec fn staging_at(root: Seq<char>, driver: Seq<char>, handle: Seq<char>) -> Seq<char> {
    paths::joined(
        paths::joined(
            paths::joined(paths::joined(paths::joined(root, "plugins"@), driver), "volumeDevices"@),
            "staging"@,
        ),
        handle,
    )
}

/// Where a volume is published to a pod.
pub open spec fn target_at(
    root: Seq<char>,
    namespace: Seq<char>,
    pod: Seq<char>,
    volume: Seq<char>,
) -> Seq<char> {
    paths::joined(
        paths::joined(
            paths::joined(
                paths::joined(
                    paths::joined(paths::joined(root, "pods"@), namespace + "_"@ + pod),
                    "volumes"@,
                ),
                "kubernetes.io~csi"@,
            ),
            volume,
        ),
        "mount"@,
    )
}

/// Where a volume is staged on this node.
pub fn staging_path(root: &str, driver: &str, volume_handle: &str) -> (r: String)
    ensures
        r@ == staging_at(root@, driver@, volume_handle@),
{
    let a = join(root, "plugins");
    let b = join(a.as_str(), driver);
    let c = join(b.as_str(), "volumeDevices");
    let d = join(c.as_str(), "staging");
    join(d.as_str(), volume_handle)
}

/// Where a volume is published to a pod.
pub fn target_path(root: &str, namespace: &str, pod: &str, volume: &str) -> (r: String)
    ensures
        r@ == target_at(root@, namespace@, pod@, volume@),
{
    let a = join(root, "pods");
    let b = join(a.as_str(), cat3(namespace, "_", pod).as_str());
    let c = join(b.as_str(), "volumes");
    let d = join(c.as_str(), "kubernetes.io~csi");
    let e = join(d.as_str(), volume);
    join(e.as_str(), "mount")
}

// ---- a volume for a pod --------------------------------------------------------------------

/// A volume that a pod needs.
#[derive(Debug)]
pub struct CsiPublishRequest {
    pub driver: String,
    pub volume_handle: String,
    pub fs_type: Option<String>,
    pub volume_attributes: Table<String>,
    pub read_only: bool,
}

/// Why a volume is not there.
#[derive(Clone, Debug, PartialEq, Eq)]
pub enum VolumeResolveError {
    /// Its driver is not registered.
    CsiUnavailable { vol: String, driver: String },
    /// It could not be made, in these words.
    Materialize(String),
}

/// An error in words.
pub open spec fn volume_error_text(e: VolumeResolveError) -> Seq<char> {
    match e {
        VolumeResolveError::CsiUnavailable { vol, driver } => "volume "@ + vol@
            + " needs CSI driver "@ + driver@ + ", which is not registered on this node"@,
        VolumeResolveError::Materialize(words) => words@,
    }
}

impl VolumeResolveError {
    /// The name of the reason for which the pod waits.
    pub fn pending_reason(&self) -> (r: &'static str)
        ensures
            r@ == match self {
                VolumeResolveError::CsiUnavailable { .. } => "CsiUnavailable"@,
                VolumeResolveError::Materialize(_) => "Materialize"@,
            },
    {
        match self {
            VolumeResolveError::CsiUnavailable { .. } => "CsiUnavailable",
            VolumeResolveError::Materialize(_) => "Materialize",
        }
    }

    /// The error in words.
    pub fn to_text(&self) -> (r: String)
        ensures
            r@ == volume_error_text(*self),
    {
        match self {
            VolumeResolveError::CsiUnavailable { vol, driver } => cat5(
                "volume ",
                vol.as_str(),
                " needs CSI driver ",
                driver.as_str(),
                ", which is not registered on this node",
            ),
            VolumeResolveError::Materialize(words) => words.clone(),
        }
    }
}

/// How many nodes may write to a volume.
#[derive(Clone, Copy, Debug, PartialEq, Eq, Structural)]
pub enum AccessMode {
    SingleNodeWriter,
    MultiNodeMultiWriter,
}

/// What is asked of a volume.
#[derive(Clone, Debug, PartialEq, Eq)]
pub struct VolumeCapability {
    pub fs_type: String,
    pub access_mode: AccessMode,
}

/// The file system that is asked for, empty where none is.
pub open spec fn fs_text(fs_type: Option<String>) -> Seq<char> {
    match fs_type {
        Some(s) => s@,
        None => Seq::empty(),
    }
}

/// What is asked of a volume for a pod. One node may write, also where this mount is read-only.
pub open spec fn capability_is(c: VolumeCapability, fs_type: Option<String>) -> bool {
    c.fs_type@ == fs_text(fs_type) && c.access_mode == AccessMode::SingleNodeWriter
}

fn capability(fs_type: &Option<String>) -> (r: VolumeCapability)
    ensures
        capability_is(r, *fs_type),
{
    VolumeCapability {
        fs_type: match fs_type {
            Some(s) => s.clone(),
            None => String::new(),
        },
        access_mode: AccessMode::SingleNodeWriter,
    }
}

/// A volume to stage.
#[derive(Debug)]
pub struct StageRequest {
    pub volume_id: String,
    pub staging_target_path: String,
    pub volume_capability: VolumeCapability,
    pub volume_context: Table<String>,
}

/// A volume to publish.
#[derive(Debug)]
pub struct PublishRequest {
    pub volume_id: String,
    /// Where it was staged; empty where it was not.
    pub staging_target_path: String,
    pub target_path: String,
    pub volume_capability: VolumeCapability,
    pub readonly: bool,
    pub volume_context: Table<String>,
}

/// What was published, as it is to be taken down.
#[derive(Clone, Debug, PartialEq, Eq)]
pub struct Published {
    pub driver: String,
    pub volume_handle: String,
    pub target: String,
    pub staging: Option<String>,
}

/// Which volume of which pod.
#[derive(Clone, Debug, PartialEq, Eq)]
pub struct VolumeKey {
    pub namespace: String,
    pub pod: String,
    pub volume: String,
}

/// How far a volume is for a pod.
#[derive(Debug)]
pub enum PublishState {
    /// The directory that it is published at is being made.
    TargetDir { stage: bool },
    /// The directory that it is staged at is being made.
    StagingDir,
    /// It is being staged.
    Staging,
    /// It is being published.
    Publishing { staged: bool },
    /// Nothing more is to be done.
    Over,
}

/// What is asked next.
#[derive(Debug)]
pub enum PublishCall {
    /// That there is a directory, and those above it.
    MakeDir(String),
    /// The driver stages the volume.
    Stage(StageRequest),
    /// The driver publishes the volume.
    Publish(PublishRequest),
    /// Nothing: this came of it.
    Finish(Result<MountSource, VolumeResolveError>),
}

/// What was answered.
#[derive(Debug)]
pub enum PublishReply {
    Done,
    /// It failed, in these words.
    Failed(String),
}

/// What is called to take a volume down. That a call fails stops nothing.
#[derive(Debug, PartialEq, Eq)]
pub struct Teardown {
    pub driver: String,
    pub volume_id: String,
    pub target_path: String,
    /// Where it was staged, where it was: unstaged after it was unpublished.
    pub staging_target_path: Option<String>,
}

/// What is left to do of a volume that is forgotten.
#[derive(Debug, PartialEq, Eq)]
pub enum Unpublish {
    /// Nothing: it was never published, or was taken down already.
    Nothing,
    /// Nothing can be: this driver is gone, and its mount may be left behind.
    DriverGone(String),
    /// It is taken down.
    Call(Teardown),
}

/// The name under which a published volume is kept.
pub open spec fn book_key(k: VolumeKey) -> Seq<char> {
    k.namespace@ + "/"@ + k.pod@ + "/"@ + k.volume@
}

/// The volumes of storage drivers on a node.
#[derive(Debug)]
pub struct CsiVolumeMaterializer {
    root: String,
    published: Table<Published>,
}

/// What is known of the volumes of storage drivers on a node.
#[verifier::ext_equal]
pub struct CsiView {
    pub root: Seq<char>,
    pub published: Map<Seq<char>, Published>,
}

impl View for CsiVolumeMaterializer {
    type V = CsiView;

    closed spec fn view(&self) -> CsiView {
        CsiView { root: self.root@, published: self.published@ }
    }
}

/// The end of a volume that could not be made, in these words.
pub open spec fn fails_with(next: PublishState, call: PublishCall, words: Seq<char>) -> bool {
    next is Over && (call matches PublishCall::Finish(Err(VolumeResolveError::Materialize(w)))
        && w@ == words)
}

/// Whether this is the volume to stage.
pub open spec fn stage_is(q: StageRequest, root: Seq<char>, req: CsiPublishRequest) -> bool {
    &&& q.volume_id == req.volume_handle
    &&& q.staging_target_path@ == staging_at(root, req.driver@, req.volume_handle@)
    &&& capability_is(q.volume_capability, req.fs_type)
    &&& q.volume_context@ == req.volume_attributes@
}

/// Whether this is the volume to publish.
pub open spec fn publish_is(
    q: PublishRequest,
    root: Seq<char>,
    key: VolumeKey,
    req: CsiPublishRequest,
    staged: bool,
) -> bool {
    &&& q.volume_id == req.volume_handle
    &&& q.staging_target_path@ == if staged {
        staging_at(root, req.driver@, req.volume_handle@)
    } else {
        Seq::empty()
    }
    &&& q.target_path@ == target_at(root, key.namespace@, key.pod@, key.volume@)
    &&& capability_is(q.volume_capability, req.fs_type)
    &&& q.readonly == req.read_only
    &&& q.volume_context@ == req.volume_attributes@
}

/// Whether this is what is kept of a published volume.
pub open spec fn kept_as(
    p: Published,
    root: Seq<char>,
    key: VolumeKey,
    req: CsiPublishRequest,
    staged: bool,
) -> bool {
    &&& p.driver == req.driver
    &&& p.volume_handle == req.volume_handle
    &&& p.target@ == target_at(root, key.namespace@, key.pod@, key.volume@)
    &&& match p.staging {
        Some(s) => staged && s@ == staging_at(root, req.driver@, req.volume_handle@),
        None => !staged,
    }
}

/// What may become of a volume for a pod in one step.
pub open spec fn publish_step(
    was: CsiView,
    new: CsiView,
    key: VolumeKey,
    req: CsiPublishRequest,
    at: PublishState,
    reply: PublishReply,
    next: PublishState,
    call: PublishCall,
) -> bool {
    let target = target_at(was.root, key.namespace@, key.pod@, key.volume@);
    let staging = staging_at(was.root, req.driver@, req.volume_handle@);
    match (at, reply) {
        (PublishState::TargetDir { .. }, PublishReply::Failed(words)) => new == was && fails_with(
            next,
            call,
            "creating CSI target "@ + target + ": "@ + words@,
        ),
        (PublishState::TargetDir { stage }, PublishReply::Done) => new == was && if stage {
            next is StagingDir && (call matches PublishCall::MakeDir(d) && d@ == staging)
        } else {
            next == (PublishState::Publishing { staged: false }) && (call matches
                PublishCall::Publish(q) && publish_is(q, was.root, key, req, false))
        },
        (PublishState::StagingDir, PublishReply::Failed(words)) => new == was && fails_with(
            next,
            call,
            "creating CSI staging dir "@ + staging + ": "@ + words@,
        ),
        (PublishState::StagingDir, PublishReply::Done) => new == was && next is Staging && (
        call matches PublishCall::Stage(q) && stage_is(q, was.root, req)),
        (PublishState::Staging, PublishReply::Done) => new == was && next
            == (PublishState::Publishing { staged: true }) && (call matches PublishCall::Publish(q)
            && publish_is(q, was.root, key, req, true)),
        (PublishState::Publishing { staged }, PublishReply::Done) => {
            &&& new.published.dom().contains(book_key(key))
            &&& kept_as(new.published[book_key(key)], was.root, key, req, staged)
            &&& new == CsiView {
                published: was.published.insert(
                    book_key(key),
                    new.published[book_key(key)],
                ),
                ..was
            }
            &&& next is Over
            &&& call matches PublishCall::Finish(Ok(MountSource::PvcHostDir { path, read_only }))
                && path@ == target && read_only == req.read_only
        },
        (PublishState::Over, _) => false,
        (_, PublishReply::Failed(words)) => new == was && fails_with(
            next,
            call,
            "CSI publish of volume "@ + key.volume@ + ": "@ + words@,
        ),
    }
}

impl CsiVolumeMaterializer {
    /// No volumes, below this directory.
    pub fn new(root: &str) -> (r: CsiVolumeMaterializer)
        ensures
            r@ == (CsiView { root: root@, published: Map::empty() }),
    {
        CsiVolumeMaterializer { root: root.to_owned(), published: Table::new() }
    }

    /// The name of this way to make volumes.
    pub fn name(&self) -> (r: &'static str)
        ensures
            r@ == "csi"@,
    {
        "csi"
    }

    fn book_key(key: &VolumeKey) -> (r: String)
        ensures
            r@ == book_key(*key),
    {
        cat5(key.namespace.as_str(), "/", key.pod.as_str(), "/", key.volume.as_str())
    }

    fn target(&self, key: &VolumeKey) -> (r: String)
        ensures
            r@ == target_at(self@.root, key.namespace@, key.pod@, key.volume@),
    {
        target_path(
            self.root.as_str(),
            key.namespace.as_str(),
            key.pod.as_str(),
            key.volume.as_str(),
        )
    }

    fn staging(&self, req: &CsiPublishRequest) -> (r: String)
        ensures
            r@ == staging_at(self@.root, req.driver@, req.volume_handle@),
    {
        staging_path(self.root.as_str(), req.driver.as_str(), req.volume_handle.as_str())
    }

    fn publish_request(&self, key: &VolumeKey, req: &CsiPublishRequest, staged: bool) -> (r:
        PublishRequest)
        ensures
            publish_is(r, self@.root, *key, *req, staged),
    {
        PublishRequest {
            volume_id: req.volume_handle.clone(),
            staging_target_path: if staged {
                self.staging(req)
            } else {
                String::new()
            },
            target_path: self.target(key),
            volume_capability: capability(&req.fs_type),
            readonly: req.read_only,
            volume_context: req.volume_attributes.copy(),
        }
    }

    /// The first step that makes a volume for a pod. One whose driver is not registered is not
    /// made, and nothing is mounted in its place.
    pub fn publish_csi(&self, drivers: &DriverTable, key: &VolumeKey, req: &CsiPublishRequest) -> (r:
        (PublishState, PublishCall))
        ensures
            if drivers@.dom().contains(req.driver@) {
                &&& r.0 == (PublishState::TargetDir {
                    stage: drivers@[req.driver@].stage_unstage,
                })
                &&& r.1 matches PublishCall::MakeDir(d) && d@ == target_at(
                    self@.root,
                    key.namespace@,
                    key.pod@,
                    key.volume@,
                )
            } else {
                &&& r.0 is Over
                &&& r.1 matches PublishCall::Finish(
                    Err(VolumeResolveError::CsiUnavailable { vol, driver }),
                ) && vol == key.volume && driver == req.driver
            },
    {
        match drivers.get(req.driver.as_str()) {
            None => (
                PublishState::Over,
                PublishCall::Finish(
                    Err(
                        VolumeResolveError::CsiUnavailable {
                            vol: key.volume.clone(),
                            driver: req.driver.clone(),
                        },
                    ),
                ),
            ),
            Some(d) => (
                PublishState::TargetDir { stage: d.stage_unstage },
                PublishCall::MakeDir(self.target(key)),
            ),
        }
    }

    /// The next step that makes a volume for a pod, where the last one was answered like this.
    pub fn continue_publish(
        &mut self,
        key: &VolumeKey,
        req: &CsiPublishRequest,
        at: PublishState,
        reply: PublishReply,
    ) -> (r: (PublishState, PublishCall))
        requires
            at !is Over,
        ensures
            publish_step(old(self)@, final(self)@, *key, *req, at, reply, r.0, r.1),
    {
        match (at, reply) {
            (PublishState::TargetDir { .. }, PublishReply::Failed(words)) => {
                let w = cat4(
                    "creating CSI target ",
                    self.target(key).as_str(),
                    ": ",
                    words.as_str(),
                );
                (PublishState::Over, PublishCall::Finish(Err(VolumeResolveError::Materialize(w))))
            },
            (PublishState::TargetDir { stage }, PublishReply::Done) => {
                if stage {
                    (PublishState::StagingDir, PublishCall::MakeDir(self.staging(req)))
                } else {
                    (
                        PublishState::Publishing { staged: false },
                        PublishCall::Publish(self.publish_request(key, req, false)),
                    )
                }
            },
            (PublishState::StagingDir, PublishReply::Failed(words)) => {
                let w = cat4(
                    "creating CSI staging dir ",
                    self.staging(req).as_str(),
                    ": ",
                    words.as_str(),
                );
                (PublishState::Over, PublishCall::Finish(Err(VolumeResolveError::Materialize(w))))
            },
            (PublishState::StagingDir, PublishReply::Done) => {
                let q = StageRequest {
                    volume_id: req.volume_handle.clone(),
                    staging_target_path: self.staging(req),
                    volume_capability: capability(&req.fs_type),
                    volume_context: req.volume_attributes.copy(),
                };
                (PublishState::Staging, PublishCall::Stage(q))
            },
            (PublishState::Staging, PublishReply::Done) => (
                PublishState::Publishing { staged: true },
                PublishCall::Publish(self.publish_request(key, req, true)),
            ),
            (PublishState::Publishing { staged }, PublishReply::Done) => {
                let target = self.target(key);
                let record = Published {
                    driver: req.driver.clone(),
                    volume_handle: req.volume_handle.clone(),
                    target: target.clone(),
                    staging: if staged {
                        Some(self.staging(req))
                    } else {
                        None
                    },
                };
                let book = CsiVolumeMaterializer::book_key(key);
                self.published.insert(book.as_str(), record);
                (
                    PublishState::Over,
                    PublishCall::Finish(
                        Ok(MountSource::PvcHostDir { path: target, read_only: req.read_only }),
                    ),
                )
            },
            (_, PublishReply::Failed(words)) => {
                let w = cat4("CSI publish of volume ", key.volume.as_str(), ": ", words.as_str());
                (PublishState::Over, PublishCall::Finish(Err(VolumeResolveError::Materialize(w))))
            },
            (PublishState::Over, PublishReply::Done) => {
                assert(false);
                (PublishState::Over, PublishCall::MakeDir(String::new()))
            },
        }
    }

    /// Forgets a volume of a pod: what is called to take it down, where it was published and its
    /// driver is still there.
    pub fn unpublish_csi(&mut self, drivers: &DriverTable, key: &VolumeKey) -> (r: Unpublish)
        ensures
            final(self)@ == (CsiView {
                published: old(self)@.published.remove(book_key(*key)),
                ..old(self)@
            }),
            if old(self)@.published.dom().contains(book_key(*key)) {
                let p = old(self)@.published[book_key(*key)];
                if drivers@.dom().contains(p.driver@) {
                    r == Unpublish::Call(
                        Teardown {
                            driver: p.driver,
                            volume_id: p.volume_handle,
                            target_path: p.target,
                            staging_target_path: p.staging,
                        },
                    )
                } else {
                    r == Unpublish::DriverGone(p.driver)
                }
            } else {
                r is Nothing
            },
    {
        let book = CsiVolumeMaterializer::book_key(key);
        match self.published.take(book.as_str()) {
            None => Unpublish::Nothing,
            Some(record) => match drivers.get(record.driver.as_str()) {
                None => Unpublish::DriverGone(record.driver),
                Some(_) => Unpublish::Call(
                    Teardown {
                        driver: record.driver,
                        volume_id: record.volume_handle,
                        target_path: record.target,
                        staging_target_path: record.staging,
                    },
                ),
            },
        }
    }
}

// ---- new volumes ---------------------------------------------------------------------------

/// A volume that a claim needs.
#[derive(Debug)]
pub struct CsiCreateRequest {
    pub driver: String,
    pub name: String,
    pub capacity_bytes: i64,
    /// Whether several nodes write to it.
    pub multi_node: bool,
    pub parameters: Table<String>,
}

/// A volume that a driver is asked for.
#[derive(Debug)]
pub struct CreateVolumeRequest {
    pub name: String,
    /// The least size. None is sent where none is asked for, so that the driver picks.
    pub required_bytes: Option<i64>,
    pub access_mode: AccessMode,
    pub parameters: Table<String>,
}

/// A volume that a driver made.
#[derive(Debug)]
pub struct CsiCreatedVolume {
    pub volume_handle: String,
    pub capacity_bytes: i64,
    pub volume_attributes: Table<String>,
}

/// Whether volumes of this driver can be made.
pub fn can_provision(drivers: &DriverTable, driver: &str) -> (r: bool)
    ensures
        r == drivers@.dom().contains(driver@),
{
    drivers.get(driver).is_some()
}

/// What a driver is asked for, for a claim.
pub fn create_volume(drivers: &DriverTable, req: &CsiCreateRequest) -> (r: Result<
    CreateVolumeRequest,
    String,
>)
    ensures
        if drivers@.dom().contains(req.driver@) {
            r matches Ok(q) && {
                &&& q.name == req.name
                &&& q.required_bytes == if req.capacity_bytes > 0 {
                    Some(req.capacity_bytes)
                } else {
                    None
                }
                &&& q.access_mode == if req.multi_node {
                    AccessMode::MultiNodeMultiWriter
                } else {
                    AccessMode::SingleNodeWriter
                }
                &&& q.parameters@ == req.parameters@
            }
        } else {
            r matches Err(e) && e@ == "CSI driver "@ + req.driver@ + " is not registered"@
        },
{
    if !can_provision(drivers, req.driver.as_str()) {
        return Err(cat3("CSI driver ", req.driver.as_str(), " is not registered"));
    }
    Ok(
        CreateVolumeRequest {
            name: req.name.clone(),
            required_bytes: if req.capacity_bytes > 0 {
                Some(req.capacity_bytes)
            } else {
                None
            },
            access_mode: if req.multi_node {
                AccessMode::MultiNodeMultiWriter
            } else {
                AccessMode::SingleNodeWriter
            },
            parameters: req.parameters.copy(),
        },
    )
}

/// The volume that a driver made for a claim. Where it does not say how large it is, it is as
/// large as was asked for.
pub fn created_volume(
    req: &CsiCreateRequest,
    volume_id: String,
    capacity_bytes: i64,
    volume_context: Table<String>,
) -> (r: CsiCreatedVolume)
    ensures
        r.volume_handle == volume_id,
        r.capacity_bytes == if capacity_bytes > 0 {
            capacity_bytes
        } else {
            req.capacity_bytes
        },
        r.volume_attributes@ == volume_context@,
{
    CsiCreatedVolume {
        volume_handle: volume_id,
        capacity_bytes: if capacity_bytes > 0 {
            capacity_bytes
        } else {
            req.capacity_bytes
        },
        volume_attributes: volume_context,
    }
}

/// The id of the volume that a driver is asked to delete.
pub fn delete_volume(drivers: &DriverTable, driver: &str, volume_handle: &str) -> (r: Result<
    String,
    String,
>)
    ensures
        if drivers@.dom().contains(driver@) {
            r matches Ok(id) && id@ == volume_handle@
        } else {
            r matches Err(e) && e@ == "CSI driver "@ + driver@ + " is not registered"@
        },
{
    if can_provision(drivers, driver) {
        Ok(volume_handle.to_owned())
    } else {
        Err(cat3("CSI driver ", driver, " is not registered"))
    }
}

// ---- which drivers there are ---------------------------------------------------------------

/// How many of these names are in this set.
pub open spec fn count_in(names: Seq<Seq<char>>, s: Set<Seq<char>>) -> nat
    decreases names.len(),
{
    if names.len() == 0 {
        0
    } else if s.contains(names.last()) {
        count_in(names.drop_last(), s) + 1
    } else {
        count_in(names.drop_last(), s)
    }
}

proof fn count_in_is_small(names: Seq<Seq<char>>, s: Set<Seq<char>>)
    ensures
        count_in(names, s) <= names.len(),
    decreases names.len(),
{
    if names.len() > 0 {
        count_in_is_small(names.drop_last(), s);
    }
}

/// The drivers after a pass that found these plugins and could call those of these names: one
/// that was known and is found stays, one that is found and can be called comes, one that is not
/// found goes.
pub open spec fn drivers_after(
    known: Map<Seq<char>, RegisteredDriver>,
    found: Map<Seq<char>, RegisteredDriver>,
    dialed: Seq<Seq<char>>,
) -> Map<Seq<char>, RegisteredDriver> {
    Map::new(
        |n: Seq<char>| found.dom().contains(n) && (known.dom().contains(n) || dialed.contains(n)),
        |n: Seq<char>|
            if known.dom().contains(n) {
                known[n]
            } else {
                found[n]
            },
    )
}

/// The names of the found plugins that are not known yet, in order.
pub fn unknown_drivers(drivers: &DriverTable, found: &Table<RegisteredDriver>) -> (r: Vec<String>)
    ensures
        text::ascending(text::texts(r@)),
        text::texts(r@).to_set() == found@.dom().difference(drivers@.dom()),
{
    let names = found.keys();
    let ghost all = text::texts(names@);
    let mut out: Vec<String> = Vec::new();
    let mut i: usize = 0;
    assert(text::texts(out@).to_set() =~= all.take(0).to_set().difference(drivers@.dom()));
    while i < names.len()
        invariant
            i <= names@.len(),
            all == text::texts(names@),
            text::ascending(text::texts(out@)),
            text::texts(out@).to_set() == all.take(i as int).to_set().difference(drivers@.dom()),
        decreases names@.len() - i,
    {
        assert(all.take(i + 1) =~= all.take(i as int).push(names@[i as int]@));
        assert(all.take(i + 1).to_set() =~= all.take(i as int).to_set().insert(names@[i as int]@))
            by {
            broadcast use vstd::seq_lib::group_seq_properties;

            assert forall|x: Seq<char>|
                all.take(i + 1).contains(x) <==> all.take(i as int).contains(x) || x
                    == names@[i as int]@ by {
                let p = all.take(i as int).push(names@[i as int]@);
                if all.take(i as int).contains(x) {
                    let k = choose|k: int| 0 <= k < i && all.take(i as int)[k] == x;
                    assert(p[k] == x);
                }
                if x == names@[i as int]@ {
                    assert(p[i as int] == x);
                }
            }
        }
        if drivers.get(names[i].as_str()).is_none() {
            crate::text::insert_ascending(&mut out, names[i].clone());
        }
        assert(text::texts(out@).to_set() =~= all.take(i + 1).to_set().difference(drivers@.dom()));
        i += 1;
    }
    assert(all.take(i as int) =~= all);
    out
}

/// Brings the drivers to what a pass found: these plugins, of which those that were not known were
/// called and answered where `dialed` names them, and `failed` more that could not be read.
pub fn sync_drivers(
    drivers: &mut DriverTable,
    found: &Table<RegisteredDriver>,
    failed: usize,
    dialed: &[String],
) -> (r: ReconcileReport)
    requires
        text::sorted(found@.dom()).len() + text::sorted(old(drivers)@.dom()).len() + failed
            <= usize::MAX,
    ensures
        final(drivers)@ == drivers_after(old(drivers)@, found@, text::texts(dialed@)),
        r.objects_examined == text::sorted(found@.dom()).len() + failed,
        r.objects_skipped == failed + count_in(
            text::sorted(found@.dom()),
            Set::new(
                |n: Seq<char>|
                    !old(drivers)@.dom().contains(n) && !text::texts(dialed@).contains(n),
            ),
        ),
        r.objects_changed == count_in(
            text::sorted(found@.dom()),
            Set::new(
                |n: Seq<char>|
                    !old(drivers)@.dom().contains(n) && text::texts(dialed@).contains(n),
            ),
        ) + count_in(
            text::sorted(old(drivers)@.dom()),
            Set::new(|n: Seq<char>| !found@.dom().contains(n)),
        ),
{
    let ghost before = drivers@;
    let ghost called = text::texts(dialed@);
    let known = drivers.names();
    let names = found.keys();
    let ghost all = text::texts(names@);
    let ghost was = text::texts(known@);
    let ghost missed = Set::new(|n: Seq<char>| !before.dom().contains(n) && !called.contains(n));
    let ghost came = Set::new(|n: Seq<char>| !before.dom().contains(n) && called.contains(n));
    let ghost gone = Set::new(|n: Seq<char>| !found@.dom().contains(n));
    let mut report = ReconcileReport {
        objects_examined: names.len() + failed,
        objects_changed: 0,
        objects_skipped: failed,
    };
    let mut i: usize = 0;
    assert(all.take(0) =~= Seq::<Seq<char>>::empty());
    while i < names.len()
        invariant
            i <= names@.len(),
            all == text::texts(names@),
            all.to_set() == found@.dom(),
            was == text::texts(known@),
            was == text::sorted(before.dom()),
            was.to_set() == before.dom(),
            called == text::texts(dialed@),
            names@.len() + known@.len() + failed <= usize::MAX,
            missed == Set::new(
                |n: Seq<char>| !before.dom().contains(n) && !called.contains(n),
            ),
            came == Set::new(|n: Seq<char>| !before.dom().contains(n) && called.contains(n)),
            report.objects_examined == names@.len() + failed,
            report.objects_skipped == failed + count_in(all.take(i as int), missed),
            report.objects_changed == count_in(all.take(i as int), came),
            report.objects_skipped + report.objects_changed <= failed + i,
            forall|n: Seq<char>| #[trigger]
                drivers@.dom().contains(n) <==> before.dom().contains(n) || (all.take(
                    i as int,
                ).contains(n) && called.contains(n)),
            forall|n: Seq<char>| #[trigger]
                drivers@.dom().contains(n) ==> drivers@[n] == if before.dom().contains(n) {
                    before[n]
                } else {
                    found@[n]
                },
        decreases names@.len() - i,
    {
        let ghost name = names@[i as int]@;
        assert(all[i as int] == name);
        assert(all.to_set().contains(name));
        assert(all.take(i + 1).drop_last() =~= all.take(i as int));
        assert(all.take(i + 1).last() == name);
        assert forall|n: Seq<char>|
            all.take(i + 1).contains(n) <==> all.take(i as int).contains(n) || n == name by {
            let p = all.take(i + 1);
            if all.take(i as int).contains(n) {
                let k = choose|k: int| 0 <= k < i && all.take(i as int)[k] == n;
                assert(p[k] == n);
            }
            if n == name {
                assert(p[i as int] == n);
            }
            if p.contains(n) {
                let k = choose|k: int| 0 <= k < i + 1 && p[k] == n;
                if k < i {
                    assert(all.take(i as int)[k] == n);
                }
            }
        }
        let is_known = lists(known.as_slice(), names[i].as_str());
        proof {
            if before.dom().contains(name) {
                assert(was.to_set().contains(name));
            }
            if was.contains(name) {
                assert(was.to_set().contains(name));
            }
        }
        if !is_known {
            if lists(dialed, names[i].as_str()) {
                if let Some(plugin) = found.get(names[i].as_str()) {
                    drivers.insert(names[i].as_str(), plugin.copy());
                }
                report.objects_changed += 1;
            } else {
                report.objects_skipped += 1;
            }
        }
        i += 1;
    }
    assert(all.take(i as int) =~= all);
    let ghost middle = drivers@;
    let ghost changed_before = report.objects_changed;
    proof {
        count_in_is_small(all, came);
        assert forall|n: Seq<char>| all.contains(n) <==> found@.dom().contains(n) by {
            assert(all.to_set().contains(n) <==> all.contains(n));
        }
    }
    let mut j: usize = 0;
    assert(was.take(0) =~= Seq::<Seq<char>>::empty());
    while j < known.len()
        invariant
            j <= known@.len(),
            was == text::texts(known@),
            was.to_set() == before.dom(),
            gone == Set::new(|n: Seq<char>| !found@.dom().contains(n)),
            names@.len() + known@.len() + failed <= usize::MAX,
            changed_before <= names@.len(),
            report.objects_examined == names@.len() + failed,
            report.objects_skipped == failed + count_in(all, missed),
            report.objects_changed == changed_before + count_in(was.take(j as int), gone),
            report.objects_changed <= changed_before + j,
            forall|n: Seq<char>| #[trigger]
                drivers@.dom().contains(n) <==> middle.dom().contains(n) && !(was.take(
                    j as int,
                ).contains(n) && gone.contains(n)),
            forall|n: Seq<char>| #[trigger]
                drivers@.dom().contains(n) ==> drivers@[n] == middle[n],
        decreases known@.len() - j,
    {
        let ghost name = known@[j as int]@;
        assert(was[j as int] == name);
        assert(was.take(j + 1).drop_last() =~= was.take(j as int));
        assert(was.take(j + 1).last() == name);
        assert forall|n: Seq<char>|
            was.take(j + 1).contains(n) <==> was.take(j as int).contains(n) || n == name by {
            let p = was.take(j + 1);
            if was.take(j as int).contains(n) {
                let k = choose|k: int| 0 <= k < j && was.take(j as int)[k] == n;
                assert(p[k] == n);
            }
            if n == name {
                assert(p[j as int] == n);
            }
            if p.contains(n) {
                let k = choose|k: int| 0 <= k < j + 1 && p[k] == n;
                if k < j {
                    assert(was.take(j as int)[k] == n);
                }
            }
        }
        if !found.contains_key(known[j].as_str()) {
            drivers.remove(known[j].as_str());
            report.objects_changed += 1;
        }
        j += 1;
    }
    assert(was.take(j as int) =~= was);
    proof {
        let want = drivers_after(before, found@, called);
        assert forall|n: Seq<char>| #[trigger] drivers@.dom().contains(n) <==> want.dom().contains(
            n,
        ) by {
            assert(was.to_set().contains(n) <==> was.contains(n));
            assert(middle.dom().contains(n) <==> before.dom().contains(n) || (all.contains(n)
                && called.contains(n)));
        }
        assert(drivers@ =~= want);
    }
    report
}

// ---- laws ----------------------------------------------------------------------------------

/// What a take-down calls is what was published: the same driver, the same volume, the same path,
/// and it is unstaged where it was staged and only there.
pub proof fn teardown_undoes_publish(
    was: CsiView,
    new: CsiView,
    key: VolumeKey,
    req: CsiPublishRequest,
    staged: bool,
    next: PublishState,
    call: PublishCall,
)
    requires
        publish_step(
            was,
            new,
            key,
            req,
            PublishState::Publishing { staged },
            PublishReply::Done,
            next,
            call,
        ),
    ensures
        new.published.dom().contains(book_key(key)),
        new.published[book_key(key)].driver == req.driver,
        new.published[book_key(key)].volume_handle == req.volume_handle,
        new.published[book_key(key)].staging is Some == staged,
        call matches PublishCall::Finish(Ok(MountSource::PvcHostDir { path, .. })) && path@
            == new.published[book_key(key)].target@,
{
}

/// A volume is staged where its driver asks for it and only there, and then before it is
/// published.
pub proof fn staged_only_where_asked(
    was: CsiView,
    new: CsiView,
    key: VolumeKey,
    req: CsiPublishRequest,
    stage: bool,
    next: PublishState,
    call: PublishCall,
)
    requires
        publish_step(
            was,
            new,
            key,
            req,
            PublishState::TargetDir { stage },
            PublishReply::Done,
            next,
            call,
        ),
    ensures
        stage == (next is StagingDir),
        !stage == (call is Publish),
{
}

/// A pass that finds what is known, and no more, changes nothing.
pub proof fn a_quiet_pass_changes_nothing(
    known: Map<Seq<char>, RegisteredDriver>,
    found: Map<Seq<char>, RegisteredDriver>,
    dialed: Seq<Seq<char>>,
)
    requires
        known.dom() == found.dom(),
    ensures
        drivers_after(known, found, dialed) == known,
{
    assert(drivers_after(known, found, dialed) =~= known);
}

/// What a driver is told to publish is what was asked for: the volume of this handle, with every
/// attribute of the request under its own name and no other, for reading alone exactly where that was
/// asked, and at the path of this volume of this pod. Where it was staged first, and only there, the
/// driver is told where.
pub proof fn what_is_published_is_what_was_asked(
    was: CsiView,
    new: CsiView,
    key: VolumeKey,
    req: CsiPublishRequest,
    at: PublishState,
    reply: PublishReply,
    next: PublishState,
    call: PublishCall,
)
    requires
        publish_step(was, new, key, req, at, reply, next, call),
        call is Publish,
    ensures
        ({
            let q = call->Publish_0;
            &&& q.volume_context@ == req.volume_attributes@
            &&& q.readonly == req.read_only
            &&& q.volume_id@ == req.volume_handle@
            &&& q.target_path@ == target_at(was.root, key.namespace@, key.pod@, key.volume@)
            &&& q.volume_capability.access_mode is SingleNodeWriter
            &&& match req.fs_type {
                Some(t) => q.volume_capability.fs_type@ == t@,
                None => q.volume_capability.fs_type@.len() == 0,
            }
            &&& reply is Done
            &&& at is Staging ==> q.staging_target_path@ == staging_at(
                was.root,
                req.driver@,
                req.volume_handle@,
            )
            &&& !(at is Staging) ==> q.staging_target_path@.len() == 0 && at
                == (PublishState::TargetDir { stage: false })
            &&& new == was
            &&& next == (PublishState::Publishing { staged: at is Staging })
        }),
{
}

/// What a driver is told to stage is what was asked for: the volume of this handle, with every
/// attribute of the request under its own name and no other, at the one place of this volume.
pub proof fn what_is_staged_is_what_was_asked(
    was: CsiView,
    new: CsiView,
    key: VolumeKey,
    req: CsiPublishRequest,
    at: PublishState,
    reply: PublishReply,
    next: PublishState,
    call: PublishCall,
)
    requires
        publish_step(was, new, key, req, at, reply, next, call),
        call is Stage,
    ensures
        ({
            let q = call->Stage_0;
            &&& q.volume_context@ == req.volume_attributes@
            &&& q.volume_id@ == req.volume_handle@
            &&& q.staging_target_path@ == staging_at(was.root, req.driver@, req.volume_handle@)
            &&& q.volume_capability.access_mode is SingleNodeWriter
            &&& match req.fs_type {
                Some(t) => q.volume_capability.fs_type@ == t@,
                None => q.volume_capability.fs_type@.len() == 0,
            }
            &&& reply is Done
            &&& at is StagingDir
            &&& next is Staging
            &&& new == was
        }),
{
}

/// Only a step that was done leads on, and to one step more: the directory of the target, that of the
/// staging and the staging itself where the driver stages, the publishing, the end. Whatever failed
/// ends it with an error that holds the words of the failure, and nothing is kept.
pub proof fn a_volume_is_published_step_by_step(
    was: CsiView,
    new: CsiView,
    key: VolumeKey,
    req: CsiPublishRequest,
    at: PublishState,
    reply: PublishReply,
    next: PublishState,
    call: PublishCall,
)
    requires
        publish_step(was, new, key, req, at, reply, next, call),
    ensures
        reply matches PublishReply::Failed(words) ==> {
            &&& next is Over
            &&& new == was
            &&& call matches PublishCall::Finish(Err(VolumeResolveError::Materialize(told)))
            &&& told@.len() >= words@.len()
            &&& told@.skip(told@.len() - words@.len()) == words@
        },
        reply is Done ==> match at {
            PublishState::TargetDir { stage } => if stage {
                &&& next is StagingDir
                &&& call matches PublishCall::MakeDir(d)
                &&& d@ == staging_at(was.root, req.driver@, req.volume_handle@)
            } else {
                next == (PublishState::Publishing { staged: false }) && call is Publish
            },
            PublishState::StagingDir => next is Staging && call is Stage,
            PublishState::Staging => next == (PublishState::Publishing { staged: true })
                && call is Publish,
            PublishState::Publishing { .. } => next is Over && call is Finish,
            PublishState::Over => false,
        },
{
    if let PublishReply::Failed(words) = reply {
        let told = call->Finish_0->Err_0->Materialize_0@;
        assert(told.skip(told.len() - words@.len()) =~= words@);
    }
}

/// A volume that was published is kept under its pod and its name, and nothing else that is kept
/// changes. The pod is given the path that the driver was told, for reading alone where that was
/// asked.
pub proof fn what_was_published_is_kept(
    was: CsiView,
    new: CsiView,
    key: VolumeKey,
    req: CsiPublishRequest,
    staged: bool,
    next: PublishState,
    call: PublishCall,
    other: Seq<char>,
)
    requires
        publish_step(
            was,
            new,
            key,
            req,
            PublishState::Publishing { staged },
            PublishReply::Done,
            next,
            call,
        ),
        other != key.namespace@ + "/"@ + key.pod@ + "/"@ + key.volume@,
    ensures
        ({
            let book = key.namespace@ + "/"@ + key.pod@ + "/"@ + key.volume@;
            let target = target_at(was.root, key.namespace@, key.pod@, key.volume@);
            let p = new.published[book];
            &&& new.root == was.root
            &&& new.published.dom().contains(book)
            &&& p.driver@ == req.driver@
            &&& p.volume_handle@ == req.volume_handle@
            &&& p.target@ == target
            &&& p.staging is Some == staged
            &&& p.staging matches Some(s) ==> s@ == staging_at(
                was.root,
                req.driver@,
                req.volume_handle@,
            )
            &&& new.published.dom().contains(other) == was.published.dom().contains(other)
            &&& was.published.dom().contains(other) ==> new.published[other]
                == was.published[other]
            &&& call matches PublishCall::Finish(Ok(MountSource::PvcHostDir { path, read_only }))
            &&& path@ == target
            &&& read_only == req.read_only
        }),
{
}

/// Where a volume is published and staged, in full: below the root, by pod and name the one, by
/// driver and handle the other.
pub proof fn where_volumes_lie(
    root: Seq<char>,
    namespace: Seq<char>,
    pod: Seq<char>,
    volume: Seq<char>,
    driver: Seq<char>,
    handle: Seq<char>,
)
    requires
        root.len() > 0 && root.last() != '/',
        namespace.len() > 0 && namespace[0] != '/',
        pod.len() > 0 && pod.last() != '/',
        volume.len() > 0 && volume[0] != '/' && volume.last() != '/',
        driver.len() > 0 && driver[0] != '/' && driver.last() != '/',
        handle.len() > 0 && handle[0] != '/',
    ensures
        target_at(root, namespace, pod, volume) == root + "/pods/"@ + namespace + "_"@ + pod
            + "/volumes/kubernetes.io~csi/"@ + volume + "/mount"@,
        staging_at(root, driver, handle) == root + "/plugins/"@ + driver
            + "/volumeDevices/staging/"@ + handle,
{
    reveal_strlit("/");
    reveal_strlit("_");
    reveal_strlit("pods");
    reveal_strlit("volumes");
    reveal_strlit("kubernetes.io~csi");
    reveal_strlit("mount");
    reveal_strlit("plugins");
    reveal_strlit("volumeDevices");
    reveal_strlit("staging");
    reveal_strlit("/pods/");
    reveal_strlit("/volumes/kubernetes.io~csi/");
    reveal_strlit("/mount");
    reveal_strlit("/plugins/");
    reveal_strlit("/volumeDevices/staging/");
    let a1 = paths::joined(root, "pods"@);
    assert(a1 =~= root + "/"@ + "pods"@);
    let p = namespace + "_"@ + pod;
    assert(p[0] == namespace[0]);
    assert(p.last() == pod.last());
    let a2 = paths::joined(a1, p);
    assert(a2 =~= a1 + "/"@ + p);
    assert(a2.last() == p.last());
    let a3 = paths::joined(a2, "volumes"@);
    assert(a3 =~= a2 + "/"@ + "volumes"@);
    let a4 = paths::joined(a3, "kubernetes.io~csi"@);
    assert(a4 =~= a3 + "/"@ + "kubernetes.io~csi"@);
    let a5 = paths::joined(a4, volume);
    assert(a5 =~= a4 + "/"@ + volume);
    assert(a5.last() == volume.last());
    let a6 = paths::joined(a5, "mount"@);
    assert(a6 =~= a5 + "/"@ + "mount"@);
    assert("/pods/"@ =~= "/"@ + "pods"@ + "/"@);
    assert("/volumes/kubernetes.io~csi/"@ =~= "/"@ + "volumes"@ + "/"@ + "kubernetes.io~csi"@
        + "/"@);
    assert("/mount"@ =~= "/"@ + "mount"@);
    assert(a6 =~= root + "/pods/"@ + namespace + "_"@ + pod + "/volumes/kubernetes.io~csi/"@
        + volume + "/mount"@);
    let b1 = paths::joined(root, "plugins"@);
    assert(b1 =~= root + "/"@ + "plugins"@);
    let b2 = paths::joined(b1, driver);
    assert(b2 =~= b1 + "/"@ + driver);
    assert(b2.last() == driver.last());
    let b3 = paths::joined(b2, "volumeDevices"@);
    assert(b3 =~= b2 + "/"@ + "volumeDevices"@);
    let b4 = paths::joined(b3, "staging"@);
    assert(b4 =~= b3 + "/"@ + "staging"@);
    let b5 = paths::joined(b4, handle);
    assert(b5 =~= b4 + "/"@ + handle);
    assert("/plugins/"@ =~= "/"@ + "plugins"@ + "/"@);
    assert("/volumeDevices/staging/"@ =~= "/"@ + "volumeDevices"@ + "/"@ + "staging"@ + "/"@);
    assert(b5 =~= root + "/plugins/"@ + driver + "/volumeDevices/staging/"@ + handle);
}

/// A driver is there after a pass exactly where its plugin was found and it was known before or could
/// be called. One that was known stays as it was, and one that is new is as it was found.
pub proof fn which_drivers_are_there(
    known: Map<Seq<char>, RegisteredDriver>,
    found: Map<Seq<char>, RegisteredDriver>,
    dialed: Seq<Seq<char>>,
    name: Seq<char>,
)
    ensures
        ({
            let after = drivers_after(known, found, dialed);
            &&& after.dom().contains(name) <==> found.dom().contains(name) && (
            known.dom().contains(name) || dialed.contains(name))
            &&& after.dom().contains(name) && known.dom().contains(name) ==> after[name]
                == known[name]
            &&& after.dom().contains(name) && !known.dom().contains(name) ==> after[name]
                == found[name]
        }),
{
}

/// What is counted is each name that is in the set.
pub proof fn each_name_counts_once(names: Seq<Seq<char>>, s: Set<Seq<char>>)
    ensures
        count_in(names, s) == names.filter(|n: Seq<char>| s.contains(n)).len(),
    decreases names.len(),
{
    reveal(Seq::filter);
    if names.len() > 0 {
        each_name_counts_once(names.drop_last(), s);
    }
}

/// A volume whose driver is not there is told with both names, and one that could not be made in its
/// own words.
pub proof fn how_a_missing_volume_is_told(vol: String, driver: String, words: String)
    ensures
        volume_error_text(VolumeResolveError::CsiUnavailable { vol, driver }) == "volume "@ + vol@
            + " needs CSI driver "@ + driver@ + ", which is not registered on this node"@,
        volume_error_text(VolumeResolveError::Materialize(words)) == words@,
{
}

/// Two volumes, or the volumes of two pods, are kept apart, as far as their names hold no slash.
pub proof fn volumes_are_kept_apart(a: VolumeKey, b: VolumeKey)
    requires
        book_key(a) == book_key(b),
        forall|i: int| 0 <= i < a.namespace@.len() ==> (#[trigger] a.namespace@[i]) != '/',
        forall|i: int| 0 <= i < b.namespace@.len() ==> (#[trigger] b.namespace@[i]) != '/',
        forall|i: int| 0 <= i < a.pod@.len() ==> (#[trigger] a.pod@[i]) != '/',
        forall|i: int| 0 <= i < b.pod@.len() ==> (#[trigger] b.pod@[i]) != '/',
    ensures
        a.namespace@ == b.namespace@,
        a.pod@ == b.pod@,
        a.volume@ == b.volume@,
{
    reveal_strlit("/");
    assert("/"@ =~= seq!['/']);
    let s = book_key(a);
    let m = a.namespace@.len() as int;
    let n = b.namespace@.len() as int;
    assert(s[m] == '/');
    assert(book_key(b)[n] == '/');
    if m < n {
        assert(book_key(b)[m] == b.namespace@[m]);
    }
    if n < m {
        assert(s[n] == a.namespace@[n]);
    }
    assert(s.take(m) =~= a.namespace@);
    assert(book_key(b).take(m) =~= b.namespace@);
    let x = s.skip(m + 1);
    let y = book_key(b).skip(m + 1);
    assert(x =~= a.pod@ + seq!['/'] + a.volume@);
    assert(y =~= b.pod@ + seq!['/'] + b.volume@);
    let p = a.pod@.len() as int;
    let q = b.pod@.len() as int;
    assert(x[p] == '/');
    assert(y[q] == '/');
    if p < q {
        assert(y[p] == b.pod@[p]);
    }
    if q < p {
        assert(x[q] == a.pod@[q]);
    }
    assert(x.take(p) =~= a.pod@);
    assert(y.take(p) =~= b.pod@);
    assert(x.skip(p + 1) =~= a.volume@);
    assert(y.skip(p + 1) =~= b.volume@);
}

} // verus!
