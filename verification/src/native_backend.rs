//! The runtime that runs a container as a process of the host, out of a closure in the store.
//!
//! Which process holds which container is a value: a record goes only once its process was reaped,
//! and nothing is started under an id whose process was not.

use vstd::prelude::*;
use crate::backend::{
    BindSource,
    ContainerSpec,
    ContainerStatus,
    ExecOutcome,
    LogOptions,
    MountSource,
    Readoption,
    ResolvedMount,
};
use crate::cri::{ExitDisposition, RunState};
use crate::error::{self, KubeletError};
use crate::image_source::{self, ImageSource, ImageSourceError};
use crate::number::{self, decimal_u64};
use crate::paths::{self, is_below, is_resolved_below, join, parent, same_path};
use crate::scan::{self, glue, starts_with, tail_lines};
use crate::table::Table;
use crate::text::{self, arrange, cat2, cat3, cat4, cat5, cat7, debug_of, decode_lossy};
use crate::time::Duration;

verus! {

/// The address at which a container is reached: it is a process of the host, and answers where
/// the host does.
pub const HOST_NETWORK_POD_IP: &'static str = "127.0.0.1";

/// The signal that asks a process to end.
pub const SIGTERM: i32 = 15;

/// What this runtime refused or could not do.
#[derive(Clone, Debug, PartialEq, Eq)]
pub enum NativeError {
    /// An image that needs a container runtime.
    OciImage { reference: String },
    /// A reference that cannot be understood.
    Image(ImageSourceError),
    /// No command is given, and the closure has no executable.
    NoEntrypoint { closure: String },
    /// No command is given, and the closure has several executables.
    AmbiguousEntrypoint { closure: String, candidates: Vec<String> },
    /// The command lies outside the store.
    CommandEscapesStore { program: String },
    /// A volume that only a container runtime keeps.
    NamedVolume { volume: String },
    /// A volume that is to be seen at another path than it has.
    UnmappableMount { host: String, mount_path: String },
    /// A directory that could not be made.
    VolumePath { path: String, detail: String },
    /// No such container is known.
    NoSuchContainer { id: String },
    /// The records cannot be trusted any more.
    StatePoisoned,
    /// The process could not be started.
    Spawn { program: String, detail: String },
    /// A log could not be written or read.
    Log { path: String, detail: String },
    /// There is no command to run.
    ExecNoCommand,
    /// The closure of a program cannot be told.
    NoClosureRoot { program: String },
    /// It cannot be told whether the process ended.
    Wait { id: String, detail: String },
    /// The process was not reaped yet.
    NotReaped { id: String },
    /// What was to end the process is gone, and the process may not be.
    TerminationLost { id: String },
}

/// An error in words.
pub open spec fn native_text(e: NativeError) -> Seq<char> {
    match e {
        NativeError::OciImage { reference } => "cannot run OCI image "@ + reference@
            + " — this backend has no Linux runtime under it. Declare the image as a realised closure (nix:/nix/store/...) or schedule the pod onto a node running the podman or CRI backend."@,
        NativeError::Image(e) => image_source::image_error_text(e),
        NativeError::NoEntrypoint { closure } => "the container declares no command and "@
            + closure@ + "/bin holds no executable, so there is no entrypoint to infer"@,
        NativeError::AmbiguousEntrypoint { closure, candidates } =>
            "the container declares no command and "@ + closure@ + "/bin holds "@
            + number::decimal(candidates@.len() as int) + " executables ("@ + scan::glued(
            text::texts(candidates@),
            ", "@,
        ) + "), so the entrypoint is ambiguous. Declare `command` naming the one to run."@,
        NativeError::CommandEscapesStore { program } => "the resolved command "@ + program@
            + " escapes the Nix store, so the closure would not be what actually ran"@,
        NativeError::NamedVolume { volume } => "volume "@ + text::debug_text(volume@)
            + " is a runtime-managed named volume, which has no host path a native process could read. Declare a hostPath volume instead."@,
        NativeError::UnmappableMount { host, mount_path } => "cannot mount "@ + host@ + " at "@
            + mount_path@
            + " — a native process has no mount namespace, so a volume is only honourable when its host path and its mountPath are the SAME path. Declare the volume at the path the workload already expects."@,
        NativeError::VolumePath { path, detail } => "cannot create volume path "@ + path@ + ": "@
            + detail@,
        NativeError::NoSuchContainer { id } => "no such container "@ + id@,
        NativeError::StatePoisoned => "state lock poisoned"@,
        NativeError::Spawn { program, detail } => "cannot spawn "@ + program@ + ": "@ + detail@,
        NativeError::Log { path, detail } => "cannot read log "@ + path@ + ": "@ + detail@,
        NativeError::ExecNoCommand => "exec requires a command"@,
        NativeError::NoClosureRoot { program } => "container program "@ + program@
            + " has no closure root to resolve an exec against"@,
        NativeError::Wait { id, detail } => "cannot read the exit of container "@ + id@ + ": "@
            + detail@,
        NativeError::NotReaped { id } => "container "@ + id@
            + " has not been reaped; its record stays until its process is waited on"@,
        NativeError::TerminationLost { id } => "the task terminating container "@ + id@
            + " ended without reaping it; the process may still be running"@,
    }
}

/// Whether the error of the runtime is told as this one. That a process was not reaped is told as
/// what it is.
pub open spec fn told_as(e: NativeError, k: KubeletError) -> bool {
    match e {
        NativeError::NotReaped { id } => k matches KubeletError::NotReaped { container_id }
            && container_id@ == id@,
        _ => error::backend_error(k, "native backend: "@ + native_text(e)),
    }
}

impl NativeError {
    /// The error in words.
    pub fn to_text(&self) -> (r: String)
        ensures
            r@ == native_text(*self),
    {
        match self {
            NativeError::OciImage { reference } => cat3(
                "cannot run OCI image ",
                reference.as_str(),
                " — this backend has no Linux runtime under it. Declare the image as a realised closure (nix:/nix/store/...) or schedule the pod onto a node running the podman or CRI backend.",
            ),
            NativeError::Image(e) => e.to_text(),
            NativeError::NoEntrypoint { closure } => cat3(
                "the container declares no command and ",
                closure.as_str(),
                "/bin holds no executable, so there is no entrypoint to infer",
            ),
            NativeError::AmbiguousEntrypoint { closure, candidates } => {
                assert(text::texts(candidates@).skip(0) =~= text::texts(candidates@));
                cat7(
                    "the container declares no command and ",
                    closure.as_str(),
                    "/bin holds ",
                    decimal_u64(candidates.len() as u64).as_str(),
                    " executables (",
                    glue(candidates.as_slice(), 0, ", ").as_str(),
                    "), so the entrypoint is ambiguous. Declare `command` naming the one to run.",
                )
            },
            NativeError::CommandEscapesStore { program } => cat3(
                "the resolved command ",
                program.as_str(),
                " escapes the Nix store, so the closure would not be what actually ran",
            ),
            NativeError::NamedVolume { volume } => cat3(
                "volume ",
                debug_of(volume.as_str()).as_str(),
                " is a runtime-managed named volume, which has no host path a native process could read. Declare a hostPath volume instead.",
            ),
            NativeError::UnmappableMount { host, mount_path } => cat5(
                "cannot mount ",
                host.as_str(),
                " at ",
                mount_path.as_str(),
                " — a native process has no mount namespace, so a volume is only honourable when its host path and its mountPath are the SAME path. Declare the volume at the path the workload already expects.",
            ),
            NativeError::VolumePath { path, detail } => cat4(
                "cannot create volume path ",
                path.as_str(),
                ": ",
                detail.as_str(),
            ),
            NativeError::NoSuchContainer { id } => cat2("no such container ", id.as_str()),
            NativeError::StatePoisoned => "state lock poisoned".to_owned(),
            NativeError::Spawn { program, detail } => cat4(
                "cannot spawn ",
                program.as_str(),
                ": ",
                detail.as_str(),
            ),
            NativeError::Log { path, detail } => cat4(
                "cannot read log ",
                path.as_str(),
                ": ",
                detail.as_str(),
            ),
            NativeError::ExecNoCommand => "exec requires a command".to_owned(),
            NativeError::NoClosureRoot { program } => cat3(
                "container program ",
                program.as_str(),
                " has no closure root to resolve an exec against",
            ),
            NativeError::Wait { id, detail } => cat4(
                "cannot read the exit of container ",
                id.as_str(),
                ": ",
                detail.as_str(),
            ),
            NativeError::NotReaped { id } => cat3(
                "container ",
                id.as_str(),
                " has not been reaped; its record stays until its process is waited on",
            ),
            NativeError::TerminationLost { id } => cat3(
                "the task terminating container ",
                id.as_str(),
                " ended without reaping it; the process may still be running",
            ),
        }
    }

    /// The error as the kubelet tells it.
    pub fn into_kubelet(self) -> (r: KubeletError)
        ensures
            told_as(self, r),
    {
        let words = self.to_text();
        match self {
            NativeError::NotReaped { id } => KubeletError::NotReaped { container_id: id },
            _ => KubeletError::Backend(cat2("native backend: ", words.as_str())),
        }
    }
}

/// How far a container is kept apart from the host.
#[derive(Clone, Copy, Debug, PartialEq, Eq, Structural)]
pub enum Isolation {
    /// Not at all: it runs with the rights of the daemon.
    HostProcess,
}

// ---- a container and its process -----------------------------------------------------------

/// Where a process is in its life.
#[derive(Clone, Copy, Debug, PartialEq, Eq, Structural)]
pub enum Process {
    /// It runs, or ended and was not waited for.
    Live,
    /// It is being ended.
    Terminating,
    /// It was waited for, and nothing of it is left.
    Reaped(RunState),
}

/// What was found when a process was looked at.
#[derive(Debug)]
pub enum Polled {
    /// Nothing new.
    Unchanged,
    /// It ended, like this, and was reaped.
    Ended(RunState),
    /// It could not be looked at.
    WaitFailed(String),
    /// What was to end it is gone.
    TaskLost,
}

/// A container that was started here.
#[derive(Debug)]
pub struct NativeContainer {
    pub log_path: String,
    pub program: String,
    /// How long it is given to end.
    pub grace: Duration,
    pub process: Process,
}

/// Where a process is after it was looked at.
pub open spec fn settled(p: Process, polled: Polled) -> Process {
    match p {
        Process::Reaped(_) => p,
        _ => match polled {
            Polled::Ended(s) => Process::Reaped(s),
            _ => p,
        },
    }
}

/// What is wrong where a process was looked at and this was found.
pub open spec fn poll_error(p: Process, id: Seq<char>, polled: Polled, e: NativeError) -> bool {
    match polled {
        Polled::WaitFailed(words) => p !is Reaped && (e matches NativeError::Wait { id: i, detail }
            && i@ == id && detail == words),
        Polled::TaskLost => p !is Reaped && (e matches NativeError::TerminationLost { id: i } && i@
            == id),
        _ => false,
    }
}

/// Whether a look at a process fails.
pub open spec fn poll_fails(p: Process, polled: Polled) -> bool {
    p !is Reaped && (polled is WaitFailed || polled is TaskLost)
}

impl NativeContainer {
    /// Brings the record to what was found of the process.
    pub fn settle(&mut self, id: &str, polled: Polled) -> (r: Result<(), NativeError>)
        ensures
            final(self).log_path == old(self).log_path,
            final(self).program == old(self).program,
            final(self).grace == old(self).grace,
            final(self).process == settled(old(self).process, polled),
            r is Err == poll_fails(old(self).process, polled),
            r matches Err(e) ==> poll_error(old(self).process, id@, polled, e),
    {
        if self.is_reaped() {
            return Ok(());
        }
        match polled {
            Polled::Unchanged => Ok(()),
            Polled::Ended(s) => {
                self.process = Process::Reaped(s);
                Ok(())
            },
            Polled::WaitFailed(detail) => Err(NativeError::Wait { id: id.to_owned(), detail }),
            Polled::TaskLost => Err(NativeError::TerminationLost { id: id.to_owned() }),
        }
    }

    /// What the process is doing. One that is being ended still runs.
    pub fn run_state(&self) -> (r: RunState)
        ensures
            r == match self.process {
                Process::Reaped(s) => s,
                _ => RunState::Running,
            },
    {
        match self.process {
            Process::Live => RunState::Running,
            Process::Terminating => RunState::Running,
            Process::Reaped(s) => s,
        }
    }

    /// Whether the process was reaped.
    pub fn is_reaped(&self) -> (r: bool)
        ensures
            r == (self.process is Reaped),
    {
        match self.process {
            Process::Reaped(_) => true,
            _ => false,
        }
    }

    /// The record of a container that is being ended. Nothing changes where it was already.
    pub fn stopping(self) -> (r: NativeContainer)
        ensures
            r == (NativeContainer { process: stopped(self.process), ..self }),
    {
        let mut out = self;
        if let Process::Live = out.process {
            out.process = Process::Terminating;
        }
        out
    }
}

/// Where a process is once it was asked to end.
pub open spec fn stopped(p: Process) -> Process {
    match p {
        Process::Live => Process::Terminating,
        _ => p,
    }
}

/// What the end of a process, with this code or by this signal, says of its container.
pub fn run_state_of(exited: Option<(Option<i32>, Option<i32>)>) -> (r: RunState)
    ensures
        r == match exited {
            None => RunState::Running,
            Some((Some(code), _)) => RunState::Exited(ExitDisposition::Code(code)),
            Some((None, Some(signal))) => RunState::Exited(ExitDisposition::Signal(signal)),
            Some((None, None)) => RunState::Unknown,
        },
{
    match exited {
        None => RunState::Running,
        Some((code, signal)) => match (code, signal) {
            (Some(c), _) => RunState::Exited(ExitDisposition::Code(c)),
            (None, Some(s)) => RunState::Exited(ExitDisposition::Signal(s)),
            (None, None) => RunState::Unknown,
        },
    }
}

/// The process that a signal goes to: never a group of them, and never all.
pub fn signal_target(pid: u32) -> (r: Option<i32>)
    ensures
        match r {
            Some(p) => p == pid && p > 0,
            None => pid == 0 || pid > i32::MAX,
        },
{
    if pid == 0 || pid > 0x7fff_ffff {
        None
    } else {
        Some(pid as i32)
    }
}

/// What came of waiting for a process that was asked to end.
#[derive(Clone, Copy, Debug, PartialEq, Eq, Structural)]
pub enum Waited {
    /// Its time ran out.
    Elapsed,
    /// It ended, with this code or by this signal.
    Exited { code: Option<i32>, signal: Option<i32> },
    /// It cannot be waited for.
    Failed,
}

/// What is done with a process that was asked to end.
#[derive(Clone, Copy, Debug, PartialEq, Eq, Structural)]
pub enum StopStep {
    /// It is killed, and waited for.
    Kill,
    /// It is gone, and ended like this.
    Reaped(RunState),
}

/// What is done with a process that was asked to end, where waiting for it came to this.
pub fn stop_step(waited: Waited) -> (r: StopStep)
    ensures
        r == match waited {
            Waited::Elapsed => StopStep::Kill,
            Waited::Exited { code: Some(c), .. } => StopStep::Reaped(
                RunState::Exited(ExitDisposition::Code(c)),
            ),
            Waited::Exited { code: None, signal: Some(s) } => StopStep::Reaped(
                RunState::Exited(ExitDisposition::Signal(s)),
            ),
            Waited::Exited { code: None, signal: None } => StopStep::Reaped(RunState::Unknown),
            Waited::Failed => StopStep::Reaped(RunState::Unknown),
        },
{
    match waited {
        Waited::Elapsed => StopStep::Kill,
        Waited::Exited { code, signal } => StopStep::Reaped(run_state_of(Some((code, signal)))),
        Waited::Failed => StopStep::Reaped(RunState::Unknown),
    }
}

// ---- the runtime ---------------------------------------------------------------------------

/// The runtime that runs containers as processes of the host.
#[derive(Debug)]
pub struct NativeBackend {
    isolation: Isolation,
    log_dir: String,
    state: Table<NativeContainer>,
}

/// What is known of a `NativeBackend`.
#[verifier::ext_equal]
pub struct NativeView {
    pub isolation: Isolation,
    pub log_dir: Seq<char>,
    pub containers: Map<Seq<char>, NativeContainer>,
}

impl View for NativeBackend {
    type V = NativeView;

    closed spec fn view(&self) -> NativeView {
        NativeView {
            isolation: self.isolation,
            log_dir: self.log_dir@,
            containers: self.state@,
        }
    }
}

/// The id of a container.
pub open spec fn native_id(spec: ContainerSpec) -> Seq<char> {
    spec.pod.namespace@ + "_"@ + spec.pod.name@ + "_"@ + spec.name@
}

/// Whether this is the closure of an image, or why there is none.
pub open spec fn closure_is(image: Seq<char>, r: Result<String, NativeError>) -> bool {
    if image.len() == 0 {
        r matches Err(NativeError::Image(ImageSourceError::Empty))
    } else if !scan::begins(image, "nix:"@) {
        r matches Err(NativeError::OciImage { reference }) && reference@ == image
    } else {
        let path = image.skip("nix:"@.len() as int);
        if !scan::begins(path, "/nix/store/"@) {
            r matches Err(NativeError::Image(ImageSourceError::NotAStorePath { path: p })) && p@
                == path
        } else if image_source::climbs(path) {
            r matches Err(NativeError::Image(ImageSourceError::TraversesUpward { path: p })) && p@
                == path
        } else if image_source::names_root(path) {
            r matches Err(NativeError::Image(ImageSourceError::NoPackage))
        } else {
            r matches Ok(p) && p@ == path
        }
    }
}

/// Whether this is the only executable of a closure whose `bin` holds these names, in any order,
/// or why there is none. `None` stands for a `bin` that cannot be read.
pub open spec fn sole_is(
    closure: Seq<char>,
    listing: Option<Seq<Seq<char>>>,
    r: Result<String, NativeError>,
) -> bool {
    match listing {
        None => r matches Err(NativeError::NoEntrypoint { closure: c }) && c@ == closure,
        Some(names) => if names.len() == 0 {
            r matches Err(NativeError::NoEntrypoint { closure: c }) && c@ == closure
        } else if names.len() == 1 {
            r matches Ok(p) && p@ == paths::joined(paths::joined(closure, "bin"@), names[0])
        } else {
            r matches Err(NativeError::AmbiguousEntrypoint { closure: c, candidates }) && c@
                == closure && text::arranges(text::texts(candidates@), names)
        },
    }
}

/// The program that a command names, in a closure.
pub open spec fn program_at(closure: Seq<char>, first: Seq<char>) -> Seq<char> {
    if scan::begins(first, "/"@) {
        first
    } else {
        paths::joined(paths::joined(closure, "bin"@), first)
    }
}

/// Whether the program that a command names stays where it may lie, with each `..` followed: in the
/// store, and where it is named by a relative path in its closure.
pub open spec fn stays_inside(closure: Seq<char>, first: Seq<char>) -> bool {
    let program = program_at(closure, first);
    &&& paths::below(program, "/nix/store/"@)
    &&& paths::resolves_below(program, "/nix/store/"@)
    &&& scan::begins(first, "/"@) || paths::resolves_below(program, closure)
}

/// Whether this is the program of a container, or why there is none.
pub open spec fn program_is(
    closure: Seq<char>,
    command: Seq<String>,
    listing: Option<Seq<Seq<char>>>,
    r: Result<String, NativeError>,
) -> bool {
    if command.len() == 0 {
        sole_is(closure, listing, r)
    } else {
        let program = program_at(closure, command[0]@);
        if stays_inside(closure, command[0]@) {
            r matches Ok(p) && p@ == program
        } else {
            r matches Err(NativeError::CommandEscapesStore { program: p }) && p@ == program
        }
    }
}

/// The names in a list, where there is one.
pub open spec fn names_in(listing: Option<Vec<String>>) -> Option<Seq<Seq<char>>> {
    match listing {
        Some(v) => Some(text::texts(v@)),
        None => None,
    }
}

/// Whether two errors refuse a mount for the same reason.
pub open spec fn same_refusal(a: NativeError, b: NativeError) -> bool {
    match (a, b) {
        (NativeError::NamedVolume { volume: x }, NativeError::NamedVolume { volume: y }) => x@ == y@,
        (
            NativeError::UnmappableMount { host: x, mount_path: p },
            NativeError::UnmappableMount { host: y, mount_path: q },
        ) => x@ == y@ && p@ == q@,
        _ => false,
    }
}

/// Why a mount cannot be had, where it cannot.
pub open spec fn mount_refusal(m: ResolvedMount) -> Option<NativeError> {
    match m.source {
        MountSource::NamedVolume(volume) => Some(NativeError::NamedVolume { volume }),
        MountSource::EmptyDirHostDir(host) => unmappable(host, m.mount_path),
        MountSource::HostDir(host) => unmappable(host, m.mount_path),
        MountSource::UserHostPath(host) => unmappable(host, m.mount_path),
        MountSource::PvcHostDir { path, .. } => unmappable(path, m.mount_path),
    }
}

/// Why a directory of the host cannot be had at a path, where it cannot: a process sees it where
/// it is.
pub open spec fn unmappable(host: String, mount_path: String) -> Option<NativeError> {
    if paths::components(host@) == paths::components(mount_path@) {
        None
    } else {
        Some(NativeError::UnmappableMount { host, mount_path })
    }
}

/// The path of a mount on the host.
pub open spec fn host_path(m: ResolvedMount) -> String {
    match m.source {
        MountSource::NamedVolume(p) => p,
        MountSource::EmptyDirHostDir(p) => p,
        MountSource::HostDir(p) => p,
        MountSource::UserHostPath(p) => p,
        MountSource::PvcHostDir { path, .. } => path,
    }
}

/// How far the start of a container has come.
#[derive(Debug)]
pub enum NativeStart {
    /// The names in the closure's `bin` are being read.
    Listing { closure: String },
    /// The directory of this mount is being made.
    Mounting { program: String, mount: usize },
    /// The process of the run before is being looked at.
    Polling { program: String },
    /// The directory of the logs is being made.
    LogDir { program: String },
    /// The log is being opened.
    LogFile { program: String },
    /// The process is being started.
    Spawning { program: String },
    /// Nothing more is to be done.
    Over,
}

/// What is asked of the host next.
#[derive(Debug)]
pub enum NativeCall {
    /// The names in a directory.
    List(String),
    /// That there is a directory, and those above it.
    MakeDir(String),
    /// What the process of this container is doing.
    Poll(String),
    /// An empty log at this path.
    OpenLog(String),
    /// A process, with these words behind its name, that writes to this log.
    Spawn { program: String, args: Vec<String>, log_path: String },
    /// Nothing: this came of it.
    Finish(Result<ContainerStatus, KubeletError>),
}

/// What the host answered.
#[derive(Debug)]
pub enum NativeReply {
    /// The names in a directory, where it can be read.
    Listed(Option<Vec<String>>),
    /// The directory is there.
    Made,
    /// What was found of the process.
    Polled(Polled),
    /// The log is open.
    Opened,
    /// The process was started; whether it was still there right after.
    Spawned { seen: bool },
    /// It failed, in these words.
    Failed(String),
}

/// Whether the reply is one to what was asked.
pub open spec fn answers(at: NativeStart, reply: NativeReply) -> bool {
    match at {
        NativeStart::Listing { .. } => reply is Listed,
        NativeStart::Mounting { .. } => reply is Made || reply is Failed,
        NativeStart::Polling { .. } => reply is Polled,
        NativeStart::LogDir { .. } => reply is Made || reply is Failed,
        NativeStart::LogFile { .. } => reply is Opened || reply is Failed,
        NativeStart::Spawning { .. } => reply is Spawned || reply is Failed,
        NativeStart::Over => false,
    }
}

/// Whether nothing may be running under this id.
pub open spec fn is_free(containers: Map<Seq<char>, NativeContainer>, id: Seq<char>) -> bool {
    containers.dom().contains(id) ==> containers[id].process is Reaped
}

/// What holds between two steps of a start: from where the process of the run before was looked
/// at, nothing runs under the id.
pub open spec fn in_step(v: NativeView, spec: ContainerSpec, at: NativeStart) -> bool {
    match at {
        NativeStart::Mounting { mount, .. } => mount < spec.mounts@.len(),
        NativeStart::LogDir { .. } => is_free(v.containers, native_id(spec)),
        NativeStart::LogFile { .. } => is_free(v.containers, native_id(spec)),
        NativeStart::Spawning { .. } => is_free(v.containers, native_id(spec)),
        _ => true,
    }
}

/// The end of a start that failed like this.
pub open spec fn fails_with(next: NativeStart, call: NativeCall, e: NativeError) -> bool {
    next is Over && (call matches NativeCall::Finish(Err(k)) && told_as(e, k))
}

/// What comes next where the program is known and the first `i` mounts are there.
pub open spec fn from_mount(
    v: NativeView,
    spec: ContainerSpec,
    program: Seq<char>,
    i: int,
    next: NativeStart,
    call: NativeCall,
) -> bool {
    if i < spec.mounts@.len() {
        match mount_refusal(spec.mounts@[i]) {
            Some(e) => fails_with(next, call, e),
            None => {
                &&& next matches NativeStart::Mounting { program: p, mount } && p@ == program
                    && mount == i
                &&& call matches NativeCall::MakeDir(d) && d@ == host_path(spec.mounts@[i])@
            },
        }
    } else if v.containers.dom().contains(native_id(spec)) {
        &&& next matches NativeStart::Polling { program: p } && p@ == program
        &&& call matches NativeCall::Poll(id) && id@ == native_id(spec)
    } else {
        &&& next matches NativeStart::LogDir { program: p } && p@ == program
        &&& call matches NativeCall::MakeDir(d) && d@ == v.log_dir
    }
}

/// What comes next where this is the program, or why there is none.
pub open spec fn with_program(
    v: NativeView,
    spec: ContainerSpec,
    program: Result<String, NativeError>,
    next: NativeStart,
    call: NativeCall,
) -> bool {
    match program {
        Err(e) => fails_with(next, call, e),
        Ok(p) => from_mount(v, spec, p@, 0, next, call),
    }
}

/// How the start of a container begins: with its closure, then its program.
pub open spec fn starts_as(
    v: NativeView,
    spec: ContainerSpec,
    next: NativeStart,
    call: NativeCall,
) -> bool {
    exists|c: Result<String, NativeError>| #[trigger]
        closure_is(spec.image@, c) && match c {
            Err(e) => fails_with(next, call, e),
            Ok(closure) => if spec.command@.len() == 0 {
                &&& next == NativeStart::Listing { closure }
                &&& call matches NativeCall::List(d) && d@ == paths::joined(closure@, "bin"@)
            } else {
                exists|p: Result<String, NativeError>| #[trigger]
                    program_is(closure@, spec.command@, None, p) && with_program(
                        v,
                        spec,
                        p,
                        next,
                        call,
                    )
            },
        }
}

/// The log of a container.
pub open spec fn log_of(v: NativeView, spec: ContainerSpec) -> Seq<char> {
    paths::joined(v.log_dir, native_id(spec))
}

/// Whether this is the record of a container that was just started.
pub open spec fn fresh_record(
    c: NativeContainer,
    v: NativeView,
    spec: ContainerSpec,
    program: String,
) -> bool {
    &&& c.log_path@ == log_of(v, spec)
    &&& c.program == program
    &&& c.grace == spec.termination_grace
    &&& c.process is Live
}

/// What may become of the start of a container in one step.
pub open spec fn start_step(
    old: NativeView,
    new: NativeView,
    spec: ContainerSpec,
    at: NativeStart,
    reply: NativeReply,
    next: NativeStart,
    call: NativeCall,
) -> bool {
    match at {
        NativeStart::Listing { closure } => {
            &&& new == old
            &&& reply matches NativeReply::Listed(names) && exists|p: Result<String, NativeError>|
                #[trigger] program_is(closure@, spec.command@, names_in(names), p) && with_program(
                    old,
                    spec,
                    p,
                    next,
                    call,
                )
        },
        NativeStart::Mounting { program, mount } => {
            &&& new == old
            &&& match reply {
                NativeReply::Failed(detail) => fails_with(
                    next,
                    call,
                    NativeError::VolumePath {
                        path: host_path(spec.mounts@[mount as int]),
                        detail,
                    },
                ),
                _ => from_mount(old, spec, program@, mount + 1, next, call),
            }
        },
        NativeStart::Polling { program } => {
            reply matches NativeReply::Polled(polled) && {
                let id = native_id(spec);
                if old.containers.dom().contains(id) {
                    let was = old.containers[id];
                    let now = NativeContainer { process: settled(was.process, polled), ..was };
                    &&& new == NativeView { containers: old.containers.insert(id, now), ..old }
                    &&& if poll_fails(was.process, polled) {
                        exists|e: NativeError| #[trigger]
                            poll_error(was.process, id, polled, e) && fails_with(next, call, e)
                    } else if now.process is Reaped {
                        &&& next == NativeStart::LogDir { program }
                        &&& call matches NativeCall::MakeDir(d) && d@ == old.log_dir
                    } else {
                        &&& next is Over
                        &&& call matches NativeCall::Finish(
                            Err(KubeletError::NotReaped { container_id }),
                        ) && container_id@ == id
                    }
                } else {
                    &&& new == old
                    &&& next == NativeStart::LogDir { program }
                    &&& call matches NativeCall::MakeDir(d) && d@ == old.log_dir
                }
            }
        },
        NativeStart::LogDir { program } => {
            &&& new == old
            &&& match reply {
                NativeReply::Failed(detail) => exists|path: String|
                    #![trigger path@]
                    path@ == old.log_dir && fails_with(
                        next,
                        call,
                        NativeError::VolumePath { path, detail },
                    ),
                _ => {
                    &&& next == NativeStart::LogFile { program }
                    &&& call matches NativeCall::OpenLog(p) && p@ == log_of(old, spec)
                },
            }
        },
        NativeStart::LogFile { program } => {
            &&& new == old
            &&& match reply {
                NativeReply::Failed(detail) => exists|path: String|
                    #![trigger path@]
                    path@ == log_of(old, spec) && fails_with(
                        next,
                        call,
                        NativeError::Log { path, detail },
                    ),
                _ => {
                    &&& next == NativeStart::Spawning { program }
                    &&& call matches NativeCall::Spawn { program: p, args, log_path } && p
                        == program && args@ == spec.command@.skip(
                        if spec.command@.len() == 0 {
                            0
                        } else {
                            1
                        },
                    ) && log_path@ == log_of(old, spec)
                },
            }
        },
        NativeStart::Spawning { program } => match reply {
            NativeReply::Spawned { seen } => {
                let id = native_id(spec);
                &&& new.containers.dom().contains(id)
                &&& fresh_record(new.containers[id], old, spec, program)
                &&& new == NativeView {
                    containers: old.containers.insert(id, new.containers[id]),
                    ..old
                }
                &&& next is Over
                &&& call matches NativeCall::Finish(Ok(s)) && s.container_id@ == id && s.running
                    == seen && s.exit_code is None && (s.pod_ip matches Some(ip)
                    && ip@ == HOST_NETWORK_POD_IP@)
            },
            NativeReply::Failed(detail) => new == old && fails_with(
                next,
                call,
                NativeError::Spawn { program, detail },
            ),
            _ => false,
        },
        NativeStart::Over => false,
    }
}

impl NativeBackend {
    /// A runtime that writes logs to this directory.
    pub fn new(isolation: Isolation, log_dir: &str) -> (r: NativeBackend)
        ensures
            r@ == (NativeView { isolation, log_dir: log_dir@, containers: Map::empty() }),
    {
        NativeBackend { isolation, log_dir: log_dir.to_owned(), state: Table::new() }
    }

    /// How far containers are kept apart from the host.
    pub fn isolation(&self) -> (r: Isolation)
        ensures
            r == self@.isolation,
    {
        self.isolation
    }

    /// The runtime's name.
    pub fn name(&self) -> (r: &'static str)
        ensures
            r@ == "native"@,
    {
        "native"
    }

    /// What an earlier process started cannot be taken over.
    pub fn readoption(&self) -> (r: Readoption)
        ensures
            r == Readoption::Cannot,
    {
        Readoption::Cannot
    }

    /// The id of a container.
    pub fn container_id(spec: &ContainerSpec) -> (r: String)
        ensures
            r@ == native_id(*spec),
    {
        cat5(
            spec.pod.namespace.as_str(),
            "_",
            spec.pod.name.as_str(),
            "_",
            spec.name.as_str(),
        )
    }

    /// The closure of a container's image, or why there is none.
    pub fn closure_of(spec: &ContainerSpec) -> (r: Result<String, NativeError>)
        ensures
            closure_is(spec.image@, r),
    {
        match ImageSource::parse(spec.image.as_str()) {
            Ok(ImageSource::NixClosure(p)) => Ok(p),
            Ok(ImageSource::Oci(reference)) => Err(NativeError::OciImage { reference }),
            Err(e) => Err(NativeError::Image(e)),
        }
    }

    /// The only executable of a closure whose `bin` holds these names, in any order, or why there
    /// is none. `None` stands for a `bin` that cannot be read.
    pub fn sole_executable(closure: &str, listing: Option<Vec<String>>) -> (r: Result<
        String,
        NativeError,
    >)
        ensures
            sole_is(closure@, names_in(listing), r),
    {
        let names = match listing {
            None => {
                return Err(NativeError::NoEntrypoint { closure: closure.to_owned() });
            },
            Some(v) => v,
        };
        let bin = join(closure, "bin");
        if names.len() == 0 {
            Err(NativeError::NoEntrypoint { closure: closure.to_owned() })
        } else if names.len() == 1 {
            assert(text::texts(names@)[0] == names@[0]@);
            Ok(join(bin.as_str(), names[0].as_str()))
        } else {
            Err(
                NativeError::AmbiguousEntrypoint {
                    closure: closure.to_owned(),
                    candidates: arrange(names.as_slice()),
                },
            )
        }
    }

    /// The program that a container runs, out of a closure whose `bin` holds these names. They
    /// count only where there is no command.
    pub fn resolve_program(closure: &str, command: &[String], listing: Option<Vec<String>>) -> (r:
        Result<String, NativeError>)
        ensures
            program_is(closure@, command@, names_in(listing), r),
    {
        if command.len() == 0 {
            return NativeBackend::sole_executable(closure, listing);
        }
        let first = command[0].as_str();
        let absolute = starts_with(first, "/");
        let candidate = if absolute {
            first.to_owned()
        } else {
            let bin = join(closure, "bin");
            join(bin.as_str(), first)
        };
        if !is_below(candidate.as_str(), "/nix/store/") || !is_resolved_below(
            candidate.as_str(),
            "/nix/store/",
        ) || !(absolute || is_resolved_below(candidate.as_str(), closure)) {
            return Err(NativeError::CommandEscapesStore { program: candidate });
        }
        Ok(candidate)
    }

    /// The directory of the host that a mount is, or why it cannot be had.
    pub fn verify_mount(m: &ResolvedMount) -> (r: Result<String, NativeError>)
        ensures
            match mount_refusal(*m) {
                Some(e) => r matches Err(f) && same_refusal(f, e),
                None => r matches Ok(p) && p@ == host_path(*m)@,
            },
    {
        match m.source.bind_source() {
            BindSource::Volume(name) => Err(NativeError::NamedVolume { volume: name.to_owned() }),
            BindSource::Path(p) => if same_path(p, m.mount_path.as_str()) {
                Ok(p.to_owned())
            } else {
                Err(
                    NativeError::UnmappableMount {
                        host: p.to_owned(),
                        mount_path: m.mount_path.clone(),
                    },
                )
            },
        }
    }

    /// Why the mounts of a container cannot be had, where they cannot: what is wrong with the
    /// first of them.
    pub fn verify_mounts(spec: &ContainerSpec) -> (r: Result<Vec<String>, NativeError>)
        ensures
            match r {
                Ok(dirs) => {
                    &&& dirs@.len() == spec.mounts@.len()
                    &&& forall|i: int|
                        #![trigger spec.mounts@[i]]
                        0 <= i < spec.mounts@.len() ==> mount_refusal(spec.mounts@[i]) is None
                            && dirs@[i]@ == host_path(spec.mounts@[i])@
                },
                Err(e) => exists|i: int|
                    #![trigger spec.mounts@[i]]
                    {
                        &&& 0 <= i < spec.mounts@.len()
                        &&& forall|j: int|
                            #![trigger spec.mounts@[j]]
                            0 <= j < i ==> mount_refusal(spec.mounts@[j]) is None
                        &&& mount_refusal(spec.mounts@[i]) matches Some(f) && same_refusal(e, f)
                    },
            },
    {
        let mut out: Vec<String> = Vec::new();
        let mut i: usize = 0;
        while i < spec.mounts.len()
            invariant
                i <= spec.mounts@.len(),
                out@.len() == i,
                forall|k: int|
                    #![trigger spec.mounts@[k]]
                    0 <= k < i ==> mount_refusal(spec.mounts@[k]) is None && out@[k]@ == host_path(
                        spec.mounts@[k],
                    )@,
            decreases spec.mounts@.len() - i,
        {
            match NativeBackend::verify_mount(&spec.mounts[i]) {
                Ok(p) => {
                    out.push(p);
                },
                Err(e) => {
                    assert(mount_refusal(spec.mounts@[i as int]) is Some);
                    return Err(e);
                },
            }
            i += 1;
        }
        Ok(out)
    }

    fn from_mount(&self, spec: &ContainerSpec, program: String, i: usize) -> (r: (
        NativeStart,
        NativeCall,
    ))
        requires
            i <= spec.mounts@.len(),
        ensures
            from_mount(self@, *spec, program@, i as int, r.0, r.1),
            in_step(self@, *spec, r.0),
    {
        if i < spec.mounts.len() {
            match NativeBackend::verify_mount(&spec.mounts[i]) {
                Ok(dir) => (NativeStart::Mounting { program, mount: i }, NativeCall::MakeDir(dir)),
                Err(e) => (NativeStart::Over, NativeCall::Finish(Err(e.into_kubelet()))),
            }
        } else {
            let id = NativeBackend::container_id(spec);
            if self.state.contains_key(id.as_str()) {
                (NativeStart::Polling { program }, NativeCall::Poll(id))
            } else {
                (NativeStart::LogDir { program }, NativeCall::MakeDir(self.log_dir.clone()))
            }
        }
    }

    fn with_program(&self, spec: &ContainerSpec, program: Result<String, NativeError>) -> (r: (
        NativeStart,
        NativeCall,
    ))
        ensures
            with_program(self@, *spec, program, r.0, r.1),
            in_step(self@, *spec, r.0),
    {
        match program {
            Ok(p) => self.from_mount(spec, p, 0),
            Err(e) => (NativeStart::Over, NativeCall::Finish(Err(e.into_kubelet()))),
        }
    }

    /// The first step that starts a container.
    pub fn start(&self, spec: &ContainerSpec) -> (r: (NativeStart, NativeCall))
        ensures
            in_step(self@, *spec, r.0),
            starts_as(self@, *spec, r.0, r.1),
    {
        let c = NativeBackend::closure_of(spec);
        let ghost was = c;
        assert(closure_is(spec.image@, was));
        match c {
            Err(e) => (NativeStart::Over, NativeCall::Finish(Err(e.into_kubelet()))),
            Ok(closure) => {
                if spec.command.len() == 0 {
                    let bin = join(closure.as_str(), "bin");
                    return (NativeStart::Listing { closure }, NativeCall::List(bin));
                }
                let program = NativeBackend::resolve_program(
                    closure.as_str(),
                    spec.command.as_slice(),
                    None,
                );
                assert(program_is(closure@, spec.command@, None, program));
                self.with_program(spec, program)
            },
        }
    }

    /// The next step that starts a container, where the last one was answered like this.
    pub fn continue_start(&mut self, spec: &ContainerSpec, at: NativeStart, reply: NativeReply) -> (r:
        (NativeStart, NativeCall))
        requires
            answers(at, reply),
            in_step(old(self)@, *spec, at),
        ensures
            start_step(old(self)@, final(self)@, *spec, at, reply, r.0, r.1),
            in_step(final(self)@, *spec, r.0),
    {
        match (at, reply) {
            (NativeStart::Listing { closure }, NativeReply::Listed(names)) => {
                let program = NativeBackend::resolve_program(
                    closure.as_str(),
                    spec.command.as_slice(),
                    names,
                );
                assert(program_is(closure@, spec.command@, names_in(names), program));
                self.with_program(spec, program)
            },
            (NativeStart::Mounting { program, mount }, NativeReply::Made) => {
                assert(mount < spec.mounts.len());
                self.from_mount(spec, program, mount + 1)
            },
            (NativeStart::Mounting { program, mount }, NativeReply::Failed(detail)) => {
                let path = match &spec.mounts[mount].source {
                    MountSource::NamedVolume(p) => p.clone(),
                    MountSource::EmptyDirHostDir(p) => p.clone(),
                    MountSource::HostDir(p) => p.clone(),
                    MountSource::UserHostPath(p) => p.clone(),
                    MountSource::PvcHostDir { path, .. } => path.clone(),
                };
                let e = NativeError::VolumePath { path, detail };
                (NativeStart::Over, NativeCall::Finish(Err(e.into_kubelet())))
            },
            (NativeStart::Polling { program }, NativeReply::Polled(polled)) => {
                let id = NativeBackend::container_id(spec);
                match self.state.take(id.as_str()) {
                    None => {
                        assert(self@.containers =~= old(self)@.containers);
                        (NativeStart::LogDir { program }, NativeCall::MakeDir(self.log_dir.clone()))
                    },
                    Some(c) => {
                        let mut record = c;
                        let r = record.settle(id.as_str(), polled);
                        let reaped = record.is_reaped();
                        self.state.insert(id.as_str(), record);
                        assert(self@.containers =~= old(self)@.containers.insert(id@, record));
                        match r {
                            Err(e) => {
                                assert(poll_error(c.process, id@, polled, e));
                                (NativeStart::Over, NativeCall::Finish(Err(e.into_kubelet())))
                            },
                            Ok(_) => if reaped {
                                (
                                    NativeStart::LogDir { program },
                                    NativeCall::MakeDir(self.log_dir.clone()),
                                )
                            } else {
                                let e = NativeError::NotReaped { id };
                                (NativeStart::Over, NativeCall::Finish(Err(e.into_kubelet())))
                            },
                        }
                    },
                }
            },
            (NativeStart::LogDir { program }, NativeReply::Made) => {
                let id = NativeBackend::container_id(spec);
                let path = join(self.log_dir.as_str(), id.as_str());
                (NativeStart::LogFile { program }, NativeCall::OpenLog(path))
            },
            (NativeStart::LogDir { program }, NativeReply::Failed(detail)) => {
                let path = self.log_dir.clone();
                assert(path@ == old(self)@.log_dir);
                let e = NativeError::VolumePath { path, detail };
                (NativeStart::Over, NativeCall::Finish(Err(e.into_kubelet())))
            },
            (NativeStart::LogFile { program }, NativeReply::Opened) => {
                let id = NativeBackend::container_id(spec);
                let log_path = join(self.log_dir.as_str(), id.as_str());
                let mut args: Vec<String> = Vec::new();
                let mut i: usize = 1;
                let ghost from: int = if spec.command@.len() == 0 {
                    0
                } else {
                    1
                };
                assert(args@ =~= spec.command@.subrange(from, from));
                while i < spec.command.len()
                    invariant
                        1 <= i,
                        from == if spec.command@.len() == 0 {
                            0int
                        } else {
                            1int
                        },
                        i <= spec.command@.len() || (i == 1 && spec.command@.len() == 0),
                        args@ =~= spec.command@.subrange(
                            from,
                            if i <= spec.command@.len() {
                                i as int
                            } else {
                                from
                            },
                        ),
                    decreases spec.command@.len() - i,
                {
                    args.push(spec.command[i].clone());
                    i += 1;
                }
                assert(args@ =~= spec.command@.skip(from));
                (
                    NativeStart::Spawning { program: program.clone() },
                    NativeCall::Spawn { program, args, log_path },
                )
            },
            (NativeStart::LogFile { program }, NativeReply::Failed(detail)) => {
                let id = NativeBackend::container_id(spec);
                let path = join(self.log_dir.as_str(), id.as_str());
                assert(path@ == log_of(old(self)@, *spec));
                let e = NativeError::Log { path, detail };
                (NativeStart::Over, NativeCall::Finish(Err(e.into_kubelet())))
            },
            (NativeStart::Spawning { program }, NativeReply::Spawned { seen }) => {
                let id = NativeBackend::container_id(spec);
                let log_path = join(self.log_dir.as_str(), id.as_str());
                self.state.insert(
                    id.as_str(),
                    NativeContainer {
                        log_path,
                        program,
                        grace: spec.termination_grace,
                        process: Process::Live,
                    },
                );
                let status = ContainerStatus {
                    container_id: id,
                    running: seen,
                    pod_ip: Some(HOST_NETWORK_POD_IP.to_owned()),
                    exit_code: None,
                };
                (NativeStart::Over, NativeCall::Finish(Ok(status)))
            },
            (NativeStart::Spawning { program }, NativeReply::Failed(detail)) => {
                let e = NativeError::Spawn { program, detail };
                (NativeStart::Over, NativeCall::Finish(Err(e.into_kubelet())))
            },
            (_, _) => {
                assert(false);
                (NativeStart::Over, NativeCall::Poll(String::new()))
            },
        }
    }

    /// What is said of a container, of whose process this was found.
    pub fn status(&mut self, container_id: &str, polled: Polled) -> (r: Result<
        Option<ContainerStatus>,
        KubeletError,
    >)
        ensures
            looked_at(old(self)@, final(self)@, container_id@, polled),
            if !old(self)@.containers.dom().contains(container_id@) {
                r matches Ok(None)
            } else if poll_fails(old(self)@.containers[container_id@].process, polled) {
                r matches Err(k) && exists|e: NativeError| #[trigger]
                    poll_error(
                        old(self)@.containers[container_id@].process,
                        container_id@,
                        polled,
                        e,
                    ) && told_as(e, k)
            } else {
                r matches Ok(Some(s)) && {
                    let p = settled(old(self)@.containers[container_id@].process, polled);
                    &&& s.container_id@ == container_id@
                    &&& s.running == (p !is Reaped || p matches Process::Reaped(RunState::Running))
                    &&& s.exit_code == match p {
                        Process::Reaped(RunState::Exited(d)) => Some(
                            crate::cri::code_of(d) as i32,
                        ),
                        _ => None,
                    }
                    &&& s.pod_ip matches Some(ip) && ip@ == HOST_NETWORK_POD_IP@
                }
            },
    {
        match self.state.take(container_id) {
            None => {
                assert(self@.containers =~= old(self)@.containers);
                Ok(None)
            },
            Some(c) => {
                let mut record = c;
                let r = record.settle(container_id, polled);
                let state = record.run_state();
                self.state.insert(container_id, record);
                assert(self@.containers =~= old(self)@.containers.insert(container_id@, record));
                match r {
                    Err(e) => {
                        assert(poll_error(c.process, container_id@, polled, e));
                        Err(e.into_kubelet())
                    },
                    Ok(_) => Ok(
                        Some(
                            ContainerStatus::of_run_state(
                                container_id,
                                state,
                                Some(HOST_NETWORK_POD_IP),
                            ),
                        ),
                    ),
                }
            },
        }
    }

    /// Stops a container: how long its process, which now is asked to end, is given for it. `None`
    /// where there is nothing to ask.
    pub fn stop(&mut self, container_id: &str) -> (r: Option<Duration>)
        ensures
            if old(self)@.containers.dom().contains(container_id@) {
                let was = old(self)@.containers[container_id@];
                &&& final(self)@ == (NativeView {
                    containers: old(self)@.containers.insert(
                        container_id@,
                        NativeContainer { process: stopped(was.process), ..was },
                    ),
                    ..old(self)@
                })
                &&& r == if was.process is Live {
                    Some(was.grace)
                } else {
                    None
                }
            } else {
                final(self)@ == old(self)@ && r is None
            },
    {
        match self.state.take(container_id) {
            None => {
                assert(self@.containers =~= old(self)@.containers);
                None
            },
            Some(c) => {
                let grace = match c.process {
                    Process::Live => Some(c.grace),
                    _ => None,
                };
                let record = c.stopping();
                self.state.insert(container_id, record);
                assert(self@.containers =~= old(self)@.containers.insert(container_id@, record));
                grace
            },
        }
    }

    /// Forgets a container, of whose process this was found, where it was reaped.
    pub fn remove(&mut self, container_id: &str, polled: Polled) -> (r: Result<(), KubeletError>)
        ensures
            if !old(self)@.containers.dom().contains(container_id@) {
                r is Ok && final(self)@ == old(self)@
            } else {
                let was = old(self)@.containers[container_id@];
                if settled(was.process, polled) is Reaped {
                    r is Ok && final(self)@ == (NativeView {
                        containers: old(self)@.containers.remove(container_id@),
                        ..old(self)@
                    })
                } else {
                    &&& looked_at(old(self)@, final(self)@, container_id@, polled)
                    &&& r matches Err(k) && if poll_fails(was.process, polled) {
                        exists|e: NativeError| #[trigger]
                            poll_error(was.process, container_id@, polled, e) && told_as(e, k)
                    } else {
                        k matches KubeletError::NotReaped { container_id: i } && i@
                            == container_id@
                    }
                }
            },
    {
        match self.state.take(container_id) {
            None => {
                assert(self@.containers =~= old(self)@.containers);
                Ok(())
            },
            Some(c) => {
                let mut record = c;
                let r = record.settle(container_id, polled);
                if record.is_reaped() {
                    return Ok(());
                }
                self.state.insert(container_id, record);
                assert(self@.containers =~= old(self)@.containers.insert(container_id@, record));
                match r {
                    Err(e) => {
                        assert(poll_error(c.process, container_id@, polled, e));
                        Err(e.into_kubelet())
                    },
                    Ok(_) => Err(
                        NativeError::NotReaped { id: container_id.to_owned() }.into_kubelet(),
                    ),
                }
            },
        }
    }

    /// Where the log of a container is.
    pub fn log_path(&self, container_id: &str) -> (r: Result<String, KubeletError>)
        ensures
            if self@.containers.dom().contains(container_id@) {
                r matches Ok(p) && p == self@.containers[container_id@].log_path
            } else {
                r matches Err(k) && error::backend_error(
                    k,
                    "native backend: "@ + ("no such container "@ + container_id@),
                )
            },
    {
        match self.state.get(container_id) {
            Some(c) => Ok(c.log_path.clone()),
            None => Err(
                NativeError::NoSuchContainer { id: container_id.to_owned() }.into_kubelet(),
            ),
        }
    }

    /// The part of a log that is wanted, where reading it came to this.
    pub fn logs(path: &str, body: Result<String, String>, opts: &LogOptions) -> (r: Result<
        String,
        KubeletError,
    >)
        ensures
            match body {
                Ok(b) => r matches Ok(s) && s@ == wanted(b@, opts.tail),
                Err(detail) => r matches Err(k) && error::backend_error(
                    k,
                    "native backend: "@ + ("cannot read log "@ + path@ + ": "@ + detail@),
                ),
            },
    {
        match body {
            Err(detail) => Err(
                NativeError::Log { path: path.to_owned(), detail }.into_kubelet(),
            ),
            Ok(b) => match opts.tail {
                None => Ok(b),
                Some(n) => {
                    let t = tail_lines(b.as_str(), n);
                    if t.as_str().is_empty() {
                        Ok(t)
                    } else {
                        Ok(cat2(t.as_str(), "\n"))
                    }
                },
            },
        }
    }

    /// The program that a command names in a container: one of the closure that the container
    /// runs out of, never one of the host.
    pub fn exec_target(&self, container_id: &str, argv: &[String]) -> (r: Result<
        String,
        KubeletError,
    >)
        ensures
            exec_target_is(self@.containers, container_id@, argv@, r),
    {
        let program = match self.state.get(container_id) {
            Some(c) => c.program.clone(),
            None => {
                return Err(
                    NativeError::NoSuchContainer { id: container_id.to_owned() }.into_kubelet(),
                );
            },
        };
        if argv.len() == 0 {
            return Err(NativeError::ExecNoCommand.into_kubelet());
        }
        let closure = match parent(program.as_str()) {
            Some(bin) => parent(bin.as_str()),
            None => None,
        };
        match closure {
            None => Err(NativeError::NoClosureRoot { program }.into_kubelet()),
            Some(root) => match NativeBackend::resolve_program(root.as_str(), argv, None) {
                Ok(target) => Ok(target),
                Err(e) => Err(e.into_kubelet()),
            },
        }
    }

    /// What came of a command, where it ended with this code or by a signal.
    pub fn exec_outcome(code: Option<i32>, stdout: &[u8], stderr: &[u8]) -> (r: ExecOutcome)
        ensures
            match code {
                Some(c) => r.exit_code == c,
                None => r.exit_code == -1,
            },
            r.stdout@ == text::lossy_text(stdout@),
            r.stderr@ == text::lossy_text(stderr@),
    {
        ExecOutcome {
            exit_code: match code {
                Some(c) => c,
                None => -1,
            },
            stdout: decode_lossy(stdout),
            stderr: decode_lossy(stderr),
        }
    }
}

/// Whether nothing changed but what is known of this process, of which this was found.
pub open spec fn looked_at(old: NativeView, new: NativeView, id: Seq<char>, polled: Polled) -> bool {
    if old.containers.dom().contains(id) {
        let was = old.containers[id];
        new == NativeView {
            containers: old.containers.insert(
                id,
                NativeContainer { process: settled(was.process, polled), ..was },
            ),
            ..old
        }
    } else {
        new == old
    }
}

/// The part of a log that is wanted.
pub open spec fn wanted(body: Seq<char>, tail: Option<u32>) -> Seq<char> {
    match tail {
        None => body,
        Some(n) => {
            let t = scan::last_lines(body, n as nat);
            if t.len() == 0 {
                t
            } else {
                t + "\n"@
            }
        },
    }
}

/// Whether this is the program that a command names in a container, or why there is none.
pub open spec fn exec_target_is(
    containers: Map<Seq<char>, NativeContainer>,
    id: Seq<char>,
    argv: Seq<String>,
    r: Result<String, KubeletError>,
) -> bool {
    if !containers.dom().contains(id) {
        r matches Err(k) && error::backend_error(
            k,
            "native backend: "@ + ("no such container "@ + id),
        )
    } else if argv.len() == 0 {
        r matches Err(k) && error::backend_error(k, "native backend: "@ + "exec requires a command"@)
    } else {
        let program = containers[id].program;
        let root = match paths::parent_of(program@) {
            Some(bin) => paths::parent_of(bin),
            None => None,
        };
        match root {
            None => r matches Err(k) && told_as(NativeError::NoClosureRoot { program }, k),
            Some(closure) => {
                let target = program_at(closure, argv[0]@);
                if stays_inside(closure, argv[0]@) {
                    r matches Ok(t) && t@ == target
                } else {
                    r matches Err(k) && error::backend_error(
                        k,
                        "native backend: "@ + ("the resolved command "@ + target
                            + " escapes the Nix store, so the closure would not be what actually ran"@),
                    )
                }
            },
        }
    }
}

// ---- laws ----------------------------------------------------------------------------------

/// A process that was reaped stays reaped, as it ended, whatever is found afterwards and whoever
/// asks it to end.
pub proof fn reaped_is_for_good(s: RunState, polled: Polled)
    ensures
        settled(Process::Reaped(s), polled) == Process::Reaped(s),
        !poll_fails(Process::Reaped(s), polled),
        stopped(Process::Reaped(s)) == Process::Reaped(s),
{
}

/// To ask a process to end twice is to ask it once.
pub proof fn stopping_twice_is_stopping_once(p: Process)
    ensures
        stopped(stopped(p)) == stopped(p),
{
}

/// One process per id: a process is started only where none may be running under its id, and the
/// record of what runs is not lost by it.
pub proof fn one_process_per_id(
    old: NativeView,
    new: NativeView,
    spec: ContainerSpec,
    at: NativeStart,
    reply: NativeReply,
    next: NativeStart,
    call: NativeCall,
)
    requires
        answers(at, reply),
        in_step(old, spec, at),
        start_step(old, new, spec, at, reply, next, call),
        call is Spawn || at is Spawning,
    ensures
        is_free(old.containers, native_id(spec)),
        forall|id: Seq<char>|
            id != native_id(spec) && old.containers.dom().contains(id)
                ==> #[trigger] new.containers.dom().contains(id) && new.containers[id]
                == old.containers[id],
{
}

/// An image that needs a container runtime is refused, and nothing of it is started.
pub proof fn images_are_refused(
    v: NativeView,
    spec: ContainerSpec,
    next: NativeStart,
    call: NativeCall,
)
    requires
        starts_as(v, spec, next, call),
        spec.image@.len() > 0,
        !scan::begins(spec.image@, "nix:"@),
    ensures
        next is Over,
        call matches NativeCall::Finish(Err(k)) && error::backend_error(
            k,
            "native backend: "@ + native_text(NativeError::OciImage { reference: spec.image }),
        ),
{
}

/// A program that a command names leads into the store, with each `..` followed, and one that is
/// named by a relative path leads into its closure.
pub proof fn commands_lie_in_the_store(
    closure: Seq<char>,
    command: Seq<String>,
    listing: Option<Seq<Seq<char>>>,
    program: String,
)
    requires
        program_is(closure, command, listing, Ok(program)),
        command.len() > 0,
    ensures
        paths::resolves_below(program@, "/nix/store/"@),
        !scan::begins(command[0]@, "/"@) ==> paths::resolves_below(program@, closure),
{
}

/// What a command is run as in a container leads into the store, and where it is named by a
/// relative path into the closure that the container runs out of.
pub proof fn exec_stays_in_the_closure(
    containers: Map<Seq<char>, NativeContainer>,
    id: Seq<char>,
    argv: Seq<String>,
    target: String,
    bin: Seq<char>,
    closure: Seq<char>,
)
    requires
        exec_target_is(containers, id, argv, Ok(target)),
        paths::parent_of(containers[id].program@) == Some(bin),
        paths::parent_of(bin) == Some(closure),
    ensures
        paths::resolves_below(target@, "/nix/store/"@),
        !scan::begins(argv[0]@, "/"@) ==> paths::resolves_below(target@, closure),
{
}

/// A process that was found to have ended is reaped, as it ended, and nothing else reaps it. To ask one
/// that runs to end makes it end; it does not count as ended for that.
pub proof fn what_becomes_of_a_process(p: Process, polled: Polled, s: RunState)
    ensures
        !(p is Reaped) ==> settled(p, Polled::Ended(s)) == Process::Reaped(s),
        !(p is Reaped) && !(polled is Ended) ==> settled(p, polled) == p,
        stopped(Process::Live) is Terminating,
        stopped(Process::Terminating) is Terminating,
        !(p is Reaped) ==> !(stopped(p) is Reaped),
{
}

/// To look at a process fails exactly where it was not reaped and could not be looked at, or what was to
/// end it is gone, and the error says which process and why.
pub proof fn when_a_look_fails(p: Process, id: Seq<char>, polled: Polled, e: NativeError)
    ensures
        poll_fails(p, polled) <==> !(p is Reaped) && (polled is WaitFailed || polled is TaskLost),
        poll_error(p, id, polled, e) ==> poll_fails(p, polled),
        poll_error(p, id, polled, e) && polled is WaitFailed ==> (e matches NativeError::Wait {
            id: i,
            detail,
        } && i@ == id && detail == polled->WaitFailed_0),
        poll_error(p, id, polled, e) && polled is TaskLost ==> (
        e matches NativeError::TerminationLost { id: i } && i@ == id),
{
}

/// A container is known by the namespace and the name of its pod and its own name.
pub proof fn how_a_native_container_is_known(spec: ContainerSpec)
    ensures
        native_id(spec) == spec.pod.namespace@ + "_"@ + spec.pod.name@ + "_"@ + spec.name@,
{
}

/// An image is run exactly where it is a path of the store behind `nix:`, and then that path is what is
/// run.
pub proof fn which_images_are_run(image: Seq<char>, r: Result<String, NativeError>)
    requires
        closure_is(image, r),
    ensures
        r is Ok <==> scan::begins(image, "nix:"@) && image_source::in_store(image.skip(4)),
        r matches Ok(p) ==> image == "nix:"@ + p@,
{
    reveal_strlit("nix:");
    assert("nix:"@.len() == 4);
    if r is Ok {
        scan::what_begins_a_text("nix:"@, Seq::empty(), image);
    }
    if image.len() == 0 {
        assert(!scan::begins(image, "nix:"@));
    }
}

/// Without a command the only program of a closure is run, and where there is not exactly one none is.
pub proof fn what_is_run_without_a_command(
    closure: Seq<char>,
    listing: Option<Seq<Seq<char>>>,
    r: Result<String, NativeError>,
)
    requires
        program_is(closure, Seq::empty(), listing, r),
    ensures
        r is Ok <==> listing is Some && listing.unwrap().len() == 1,
        r matches Ok(p) ==> p@ == paths::joined(
            paths::joined(closure, "bin"@),
            listing.unwrap()[0],
        ),
        listing is Some && listing.unwrap().len() > 1 ==> (
        r matches Err(NativeError::AmbiguousEntrypoint { closure: c, candidates }) && c@ == closure
            && text::texts(candidates@).to_multiset() == listing.unwrap().to_multiset()),
        listing is None || listing.unwrap().len() == 0 ==> (
        r matches Err(NativeError::NoEntrypoint { closure: c }) && c@ == closure),
{
}

/// With a command its first word is the program: as it is written where it is a path from the root, and
/// among the programs of the closure where it is not. It is run exactly where that leads into the
/// store, and, where it was not written from the root, into the closure.
pub proof fn what_is_run_with_a_command(
    closure: Seq<char>,
    command: Seq<String>,
    listing: Option<Seq<Seq<char>>>,
    r: Result<String, NativeError>,
)
    requires
        program_is(closure, command, listing, r),
        command.len() > 0,
    ensures
        ({
            let first = command[0]@;
            let program = if first.len() > 0 && first[0] == '/' {
                first
            } else {
                paths::joined(paths::joined(closure, "bin"@), first)
            };
            let inside = paths::below(program, "/nix/store/"@) && paths::resolves_below(
                program,
                "/nix/store/"@,
            ) && (first.len() > 0 && first[0] == '/' || paths::resolves_below(program, closure));
            &&& r is Ok <==> inside
            &&& r matches Ok(p) ==> p@ == program
            &&& r matches Err(e) ==> e is CommandEscapesStore
        }),
{
    reveal_strlit("/");
    let first = command[0]@;
    if first.len() > 0 {
        assert(first.take(1) =~= seq![first[0]]);
        assert("/"@ =~= seq!['/']);
        assert(scan::begins(first, "/"@) <==> first[0] == '/') by {
            if first[0] == '/' {
                assert(first.take("/"@.len() as int) =~= "/"@);
            } else if scan::begins(first, "/"@) {
                assert(first.take(1)[0] == "/"@[0]);
            }
        }
    }
}

/// A mount is refused exactly where only a runtime keeps it, or where it is to be seen at another path
/// than it has.
pub proof fn which_mounts_are_refused(m: ResolvedMount)
    ensures
        m.source is NamedVolume ==> mount_refusal(m) is Some,
        m.source matches MountSource::EmptyDirHostDir(p) ==> host_path(m) == p && (mount_refusal(
            m,
        ) is None <==> paths::components(p@) == paths::components(m.mount_path@)),
        m.source matches MountSource::HostDir(p) ==> host_path(m) == p && (mount_refusal(m) is None
            <==> paths::components(p@) == paths::components(m.mount_path@)),
        m.source matches MountSource::UserHostPath(p) ==> host_path(m) == p && (mount_refusal(
            m,
        ) is None <==> paths::components(p@) == paths::components(m.mount_path@)),
        m.source matches MountSource::PvcHostDir { path, .. } ==> host_path(m) == path && (
        mount_refusal(m) is None <==> paths::components(path@) == paths::components(
            m.mount_path@,
        )),
{
}

/// Every mount of a container is there before its process is started: the mounts are made one by one,
/// one that is refused ends the start, and only behind the last comes what was run before under the id
/// and then the log.
pub proof fn mounts_come_before_the_process(
    v: NativeView,
    spec: ContainerSpec,
    program: Seq<char>,
    i: int,
    next: NativeStart,
    call: NativeCall,
)
    requires
        0 <= i <= spec.mounts@.len(),
        from_mount(v, spec, program, i, next, call),
    ensures
        i < spec.mounts@.len() && mount_refusal(spec.mounts@[i]) is Some ==> next is Over && (
        call matches NativeCall::Finish(Err(_))),
        i < spec.mounts@.len() && mount_refusal(spec.mounts@[i]) is None ==> (
        next matches NativeStart::Mounting { program: p, mount } && p@ == program && mount == i) && (
        call matches NativeCall::MakeDir(d) && d@ == host_path(spec.mounts@[i])@),
        i == spec.mounts@.len() && v.containers.dom().contains(native_id(spec)) ==> (
        next matches NativeStart::Polling { program: p } && p@ == program) && (
        call matches NativeCall::Poll(id) && id@ == native_id(spec)),
        i == spec.mounts@.len() && !v.containers.dom().contains(native_id(spec)) ==> (
        next matches NativeStart::LogDir { program: p } && p@ == program) && (
        call matches NativeCall::MakeDir(d) && d@ == v.log_dir),
{
}

/// How a start goes on: behind the listing with the program that it gives, behind a mount with the next,
/// behind what ran before only where that was reaped, then with the log, its directory first, and then
/// the process, with the words behind the first of its command. Whatever fails ends it, and nothing is
/// recorded.
pub proof fn a_start_goes_step_by_step(
    was: NativeView,
    new: NativeView,
    spec: ContainerSpec,
    at: NativeStart,
    reply: NativeReply,
    next: NativeStart,
    call: NativeCall,
)
    requires
        answers(at, reply),
        in_step(was, spec, at),
        start_step(was, new, spec, at, reply, next, call),
    ensures
        reply is Failed ==> next is Over && new == was && (call matches NativeCall::Finish(Err(_))),
        !(at is Spawning) && !(at is Polling) ==> new == was,
        at matches NativeStart::Mounting { program, mount } ==> reply is Made ==> from_mount(
            was,
            spec,
            program@,
            mount + 1,
            next,
            call,
        ),
        at matches NativeStart::LogDir { program } ==> reply is Made ==> next
            == (NativeStart::LogFile { program }) && (call matches NativeCall::OpenLog(p) && p@
            == paths::joined(was.log_dir, native_id(spec))),
        at matches NativeStart::LogFile { program } ==> reply is Opened ==> next
            == (NativeStart::Spawning { program }) && (call matches NativeCall::Spawn {
            program: p,
            args,
            log_path,
        } && p == program && log_path@ == paths::joined(was.log_dir, native_id(spec)) && (
        spec.command@.len() > 0 ==> args@ == spec.command@.skip(1)) && (spec.command@.len() == 0
            ==> args@.len() == 0)),
        at is Polling && was.containers.dom().contains(native_id(spec)) && reply
            == NativeReply::Polled(Polled::Unchanged) && !(
        was.containers[native_id(spec)].process is Reaped) ==> next is Over && (
        call matches NativeCall::Finish(Err(KubeletError::NotReaped { container_id }))
            && container_id@ == native_id(spec)),
        at is Polling && next is LogDir ==> is_free(new.containers, native_id(spec)),
{
}

/// A process that was started is recorded as one that runs, with its program, its log and the time that
/// it is given to end, and the container is told to be up where the process was seen, under its id and
/// at the address of the host.
pub proof fn a_started_process_is_recorded(
    was: NativeView,
    new: NativeView,
    spec: ContainerSpec,
    program: String,
    seen: bool,
    next: NativeStart,
    call: NativeCall,
    other: Seq<char>,
)
    requires
        start_step(
            was,
            new,
            spec,
            NativeStart::Spawning { program },
            NativeReply::Spawned { seen },
            next,
            call,
        ),
        other != native_id(spec),
    ensures
        ({
            let id = native_id(spec);
            let c = new.containers[id];
            &&& new.containers.dom().contains(id)
            &&& c.process is Live
            &&& c.program == program
            &&& c.log_path@ == paths::joined(was.log_dir, id)
            &&& c.grace == spec.termination_grace
            &&& new.log_dir == was.log_dir
            &&& new.isolation == was.isolation
            &&& new.containers.dom().contains(other) == was.containers.dom().contains(other)
            &&& was.containers.dom().contains(other) ==> new.containers[other]
                == was.containers[other]
            &&& next is Over
            &&& call matches NativeCall::Finish(Ok(s))
            &&& s.container_id@ == id
            &&& s.running == seen
            &&& s.exit_code is None
            &&& s.pod_ip matches Some(ip)
            &&& ip@ == "127.0.0.1"@
        }),
{
}

/// A look at a process changes what is known of it alone.
pub proof fn a_look_changes_one_record(
    was: NativeView,
    new: NativeView,
    id: Seq<char>,
    polled: Polled,
    other: Seq<char>,
)
    requires
        looked_at(was, new, id, polled),
    ensures
        new.containers.dom() == was.containers.dom(),
        other != id && was.containers.dom().contains(other) ==> new.containers[other]
            == was.containers[other],
        was.containers.dom().contains(id) ==> {
            &&& new.containers[id].process == settled(was.containers[id].process, polled)
            &&& new.containers[id].program == was.containers[id].program
            &&& new.containers[id].log_path == was.containers[id].log_path
            &&& new.containers[id].grace == was.containers[id].grace
        },
{
    assert(new.containers.dom() =~= was.containers.dom());
}

/// All of a log is returned, or its last lines, each with its end.
pub proof fn which_part_of_a_log_is_returned(body: Seq<char>, n: u32)
    ensures
        wanted(body, None) == body,
        scan::last_lines(body, n as nat).len() > 0 ==> wanted(body, Some(n)) == scan::last_lines(
            body,
            n as nat,
        ) + seq!['\n'],
        scan::last_lines(body, n as nat).len() == 0 ==> wanted(body, Some(n)).len() == 0,
{
    reveal_strlit("\n");
    assert("\n"@ =~= seq!['\n']);
}

/// That a process was not reaped is told as such, so that it is tried again; every other error is one
/// of the runtime.
pub proof fn how_errors_are_told(e: NativeError, k: KubeletError)
    requires
        told_as(e, k),
    ensures
        k is NotReaped <==> e is NotReaped,
        k is Backend <==> !(e is NotReaped),
        e matches NativeError::NotReaped { id } ==> k->NotReaped_container_id@ == id@,
{
}

/// Nothing is run in a container that is not here, and nothing without a command.
pub proof fn where_a_command_is_refused(
    containers: Map<Seq<char>, NativeContainer>,
    id: Seq<char>,
    argv: Seq<String>,
    r: Result<String, KubeletError>,
)
    requires
        exec_target_is(containers, id, argv, r),
    ensures
        !containers.dom().contains(id) ==> r is Err,
        argv.len() == 0 ==> r is Err,
        r matches Ok(t) ==> {
            let bin = paths::parent_of(containers[id].program@);
            let closure = paths::parent_of(bin.unwrap());
            &&& bin is Some
            &&& closure is Some
            &&& argv[0]@.len() > 0 && argv[0]@[0] == '/' ==> t@ == argv[0]@
            &&& !(argv[0]@.len() > 0 && argv[0]@[0] == '/') ==> t@ == paths::joined(
                paths::joined(closure.unwrap(), "bin"@),
                argv[0]@,
            )
        },
{
    reveal_strlit("/");
    if argv.len() > 0 {
        let first = argv[0]@;
        if first.len() > 0 {
            assert("/"@ =~= seq!['/']);
            assert(first.take(1) =~= seq![first[0]]);
            assert(scan::begins(first, "/"@) <==> first[0] == '/') by {
                if first[0] == '/' {
                    assert(first.take("/"@.len() as int) =~= "/"@);
                } else if scan::begins(first, "/"@) {
                    assert(first.take(1)[0] == "/"@[0]);
                }
            }
        }
    }
}

/// A start begins with the closure of the image: without one, or with a command that leads out of where
/// it may lie, it is over at once. Without a command the programs of the closure are listed; with one
/// the mounts come next.
pub proof fn how_a_start_begins(
    v: NativeView,
    spec: ContainerSpec,
    next: NativeStart,
    call: NativeCall,
)
    requires
        starts_as(v, spec, next, call),
    ensures
        ({
            let path = spec.image@.skip(4);
            let runs = scan::begins(spec.image@, "nix:"@) && image_source::in_store(path);
            let first = spec.command@[0]@;
            &&& !runs ==> next is Over && (call matches NativeCall::Finish(Err(_)))
            &&& runs && spec.command@.len() == 0 ==> (next matches NativeStart::Listing { closure }
                && closure@ == path) && (call matches NativeCall::List(d) && d@ == paths::joined(
                path,
                "bin"@,
            ))
            &&& runs && spec.command@.len() > 0 && stays_inside(path, first) ==> from_mount(
                v,
                spec,
                program_at(path, first),
                0,
                next,
                call,
            )
            &&& runs && spec.command@.len() > 0 && !stays_inside(path, first) ==> next is Over && (
            call matches NativeCall::Finish(Err(_)))
        }),
{
    reveal_strlit("nix:");
    assert("nix:"@.len() == 4);
    let c = choose|c: Result<String, NativeError>| #[trigger]
        closure_is(spec.image@, c) && match c {
            Err(e) => fails_with(next, call, e),
            Ok(closure) => if spec.command@.len() == 0 {
                &&& next == NativeStart::Listing { closure }
                &&& call matches NativeCall::List(d) && d@ == paths::joined(closure@, "bin"@)
            } else {
                exists|p: Result<String, NativeError>| #[trigger]
                    program_is(closure@, spec.command@, None, p) && with_program(
                        v,
                        spec,
                        p,
                        next,
                        call,
                    )
            },
        };
    which_images_are_run(spec.image@, c);
    if let Ok(closure) = c {
        assert(closure@ =~= spec.image@.skip(4));
        if spec.command@.len() > 0 {
            let p = choose|p: Result<String, NativeError>| #[trigger]
                program_is(closure@, spec.command@, None, p) && with_program(
                    v,
                    spec,
                    p,
                    next,
                    call,
                );
            assert(p is Ok <==> stays_inside(closure@, spec.command@[0]@));
        }
    }
}

/// The listing of a closure gives its program, or ends the start.
pub proof fn what_a_listing_gives(
    was: NativeView,
    new: NativeView,
    spec: ContainerSpec,
    closure: String,
    names: Option<Vec<String>>,
    next: NativeStart,
    call: NativeCall,
)
    requires
        spec.command@.len() == 0,
        start_step(
            was,
            new,
            spec,
            NativeStart::Listing { closure },
            NativeReply::Listed(names),
            next,
            call,
        ),
    ensures
        new == was,
        names is Some && names.unwrap()@.len() == 1 ==> from_mount(
            was,
            spec,
            paths::joined(paths::joined(closure@, "bin"@), names.unwrap()@[0]@),
            0,
            next,
            call,
        ),
        names is None || names.unwrap()@.len() != 1 ==> next is Over && (
        call matches NativeCall::Finish(Err(_))),
{
    let p = choose|p: Result<String, NativeError>| #[trigger]
        program_is(closure@, spec.command@, names_in(names), p) && with_program(
            was,
            spec,
            p,
            next,
            call,
        );
    assert(spec.command@ =~= Seq::empty());
    what_is_run_without_a_command(closure@, names_in(names), p);
}

/// What was asked is answered by what was asked for, or, where something was to be done, by that it
/// failed; a start that is over asks nothing.
pub proof fn what_answers_what(at: NativeStart, reply: NativeReply)
    ensures
        at is Listing ==> (answers(at, reply) <==> reply is Listed),
        at is Polling ==> (answers(at, reply) <==> reply is Polled),
        at is Mounting || at is LogDir ==> (answers(at, reply) <==> reply is Made
            || reply is Failed),
        at is LogFile ==> (answers(at, reply) <==> reply is Opened || reply is Failed),
        at is Spawning ==> (answers(at, reply) <==> reply is Spawned || reply is Failed),
        at is Over ==> !answers(at, reply),
{
}

/// A refusal of a mount says which volume, or which path of the host and where it was to be seen.
pub proof fn what_a_refusal_says(m: ResolvedMount, e: NativeError)
    requires
        mount_refusal(m) is Some,
        same_refusal(e, mount_refusal(m).unwrap()),
    ensures
        m.source matches MountSource::NamedVolume(n) ==> (e matches NativeError::NamedVolume {
            volume,
        } && volume@ == n@),
        !(m.source is NamedVolume) ==> (e matches NativeError::UnmappableMount { host, mount_path }
            && host@ == host_path(m)@ && mount_path@ == m.mount_path@),
{
}

/// Nothing may run under an id exactly where nothing is recorded of it, or what is was reaped. Once what
/// ran before was looked at that holds to the end of the start.
pub proof fn when_an_id_is_free(v: NativeView, spec: ContainerSpec, at: NativeStart)
    ensures
        is_free(v.containers, native_id(spec)) <==> !v.containers.dom().contains(native_id(spec))
            || v.containers[native_id(spec)].process is Reaped,
        at is LogDir || at is LogFile || at is Spawning ==> (in_step(v, spec, at) <==> is_free(
            v.containers,
            native_id(spec),
        )),
        at is Listing || at is Polling || at is Over ==> in_step(v, spec, at),
        at matches NativeStart::Mounting { mount, .. } ==> (in_step(v, spec, at) <==> mount
            < spec.mounts@.len()),
{
}

} // verus!
