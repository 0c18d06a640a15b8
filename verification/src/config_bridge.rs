//! Which runtime a node's configuration selects.

use vstd::prelude::*;
use crate::backend::{self, FakeBackend, PodmanBackend, PullPolicy};
use crate::cri_backend::{self, CriBackend, CriGaps};
use crate::native_backend::{Isolation, NativeBackend};
use crate::paths::{self, join};
use crate::text::cat3;

verus! {

/// The runtimes that can be selected.
#[derive(Clone, Copy, Debug, PartialEq, Eq, Structural)]
pub enum KubeletBackendKind {
    Cri,
    PodmanApi,
    Podman,
    Fake,
    Native,
}

/// Why a runtime is not built.
#[derive(Clone, Copy, Debug, PartialEq, Eq, Structural)]
pub enum BackendRefused {
    /// It would drop a part of every pod: this is missing of it.
    CriIncomplete { missing: CriGaps },
}

impl BackendRefused {
    /// The refusal in words: what is missing, and what to select instead.
    pub fn to_text(self) -> (r: String)
        ensures
            match self {
                BackendRefused::CriIncomplete { missing } => r@
                    == "kubelet backend `cri` is refused at construction: it "@
                    + cri_backend::gaps_text(missing.list())
                    + " (pending-cri); select `podman_api` or `native`"@,
            },
    {
        match self {
            BackendRefused::CriIncomplete { missing } => cat3(
                "kubelet backend `cri` is refused at construction: it ",
                missing.to_text().as_str(),
                " (pending-cri); select `podman_api` or `native`",
            ),
        }
    }
}

/// Whether a runtime is not built: it is refused while anything is missing of it.
pub open spec fn is_refused(kind: KubeletBackendKind) -> bool {
    kind is Cri && cri_backend::all_gaps().len() > 0
}

/// Why a runtime is not built, where it is not. The kind alone decides.
pub fn construction_refusal(kind: KubeletBackendKind) -> (r: Option<BackendRefused>)
    ensures
        r is Some == is_refused(kind),
        r matches Some(BackendRefused::CriIncomplete { missing }) ==> missing.list()
            == cri_backend::all_gaps(),
{
    match kind {
        KubeletBackendKind::Cri => match CriGaps::outstanding() {
            Some(missing) => Some(BackendRefused::CriIncomplete { missing }),
            None => None,
        },
        KubeletBackendKind::PodmanApi => None,
        KubeletBackendKind::Podman => None,
        KubeletBackendKind::Fake => None,
        KubeletBackendKind::Native => None,
    }
}

/// The directory of the logs that the native runtime keeps: the one that is set, or else one below
/// the user's directory, or else one below that for passing files.
pub open spec fn log_dir_of(
    set_to: Option<Seq<char>>,
    home: Option<Seq<char>>,
    temp: Seq<char>,
) -> Seq<char> {
    match set_to {
        Some(d) => d,
        None => paths::joined(
            match home {
                Some(h) => h,
                None => temp,
            },
            ".local/share/engenho/containers"@,
        ),
    }
}

/// The directory of the logs that the native runtime keeps.
pub fn native_log_dir(set_to: Option<&str>, home: Option<&str>, temp: &str) -> (r: String)
    ensures
        r@ == log_dir_of(
            crate::lifecycle::opt_text(set_to),
            crate::lifecycle::opt_text(home),
            temp@,
        ),
{
    match set_to {
        Some(d) => d.to_owned(),
        None => {
            let base = match home {
                Some(h) => h,
                None => temp,
            };
            join(base, ".local/share/engenho/containers")
        },
    }
}

/// The runtime that is built.
#[derive(Debug)]
pub enum RuntimeChoice {
    /// Podman, over the socket of its interface, where programs in containers find the API server
    /// here.
    PodmanApi { kubernetes_service: Option<(String, u16)> },
    /// Podman, by its command.
    Podman(PodmanBackend),
    /// One behind the container runtime interface.
    Cri(CriBackend),
    /// One that runs nothing.
    Fake(FakeBackend),
    /// One that runs processes of the host.
    Native(NativeBackend),
}

impl RuntimeChoice {
    /// The runtime's name.
    pub fn name(&self) -> (r: &'static str)
        ensures
            r@ == match self {
                RuntimeChoice::PodmanApi { .. } => "podman_api"@,
                RuntimeChoice::Podman(_) => "podman"@,
                RuntimeChoice::Cri(_) => "cri"@,
                RuntimeChoice::Fake(_) => "fake"@,
                RuntimeChoice::Native(_) => "native"@,
            },
    {
        match self {
            RuntimeChoice::PodmanApi { .. } => "podman_api",
            RuntimeChoice::Podman(b) => b.name(),
            RuntimeChoice::Cri(b) => b.name(),
            RuntimeChoice::Fake(b) => b.name(),
            RuntimeChoice::Native(b) => b.name(),
        }
    }
}

/// What was found on the node.
#[derive(Debug)]
pub struct NodeFacts {
    /// Whether podman's socket is there.
    pub podman_socket: bool,
    /// The runtime behind the container runtime interface, where its socket is there.
    pub cri: Option<CriBackend>,
    /// Where the native runtime writes its logs.
    pub native_log_dir: String,
}

/// Whether this is podman by its command, as configured.
pub open spec fn podman_is(
    b: PodmanBackend,
    binary: Option<Seq<char>>,
    service: Option<(String, u16)>,
) -> bool {
    &&& b.binary@ == match binary {
        Some(p) => p,
        None => "podman"@,
    }
    &&& b.pull_policy == PullPolicy::Never
    &&& b.registry_auth_file is None
    &&& backend::network_name(b.network) == Some("engenho-net"@)
    &&& same_service(b.kubernetes_service, service)
}

/// Whether two say that the API server is found at the same place.
pub open spec fn same_service(a: Option<(String, u16)>, b: Option<(String, u16)>) -> bool {
    match (a, b) {
        (Some((h, p)), Some((i, q))) => h@ == i@ && p == q,
        (None, None) => true,
        _ => false,
    }
}

/// Whether this is the runtime that is built for this kind, on a node where this was found.
pub open spec fn choice_is(
    c: RuntimeChoice,
    kind: KubeletBackendKind,
    binary: Option<Seq<char>>,
    service: Option<(String, u16)>,
    facts: NodeFacts,
) -> bool {
    match kind {
        KubeletBackendKind::PodmanApi => if facts.podman_socket {
            c matches RuntimeChoice::PodmanApi { kubernetes_service } && kubernetes_service
                == service
        } else {
            c matches RuntimeChoice::Podman(b) && podman_is(b, binary, service)
        },
        KubeletBackendKind::Podman => c matches RuntimeChoice::Podman(b) && podman_is(
            b,
            binary,
            service,
        ),
        KubeletBackendKind::Cri => match facts.cri {
            Some(found) => c matches RuntimeChoice::Cri(b) && b@ == (cri_backend::CriView {
                service: b@.service,
                ..found@
            }) && same_service(
                b@.service,
                match service {
                    Some(_) => service,
                    None => found@.service,
                },
            ),
            None => c matches RuntimeChoice::Podman(b) && podman_is(b, None, service),
        },
        KubeletBackendKind::Fake => c matches RuntimeChoice::Fake(b) && b@ == (backend::FakeView {
            started: 0,
            containers: Map::empty(),
            events: Seq::empty(),
            logs: Map::empty(),
            seeds: Map::empty(),
        }),
        KubeletBackendKind::Native => c matches RuntimeChoice::Native(b) && b@ == (
        crate::native_backend::NativeView {
            isolation: Isolation::HostProcess,
            log_dir: facts.native_log_dir@,
            containers: Map::empty(),
        }),
    }
}

/// Podman by its command, as configured.
fn podman(binary: Option<&str>, service: Option<(String, u16)>) -> (r: PodmanBackend)
    ensures
        podman_is(r, crate::lifecycle::opt_text(binary), service),
{
    let b = match binary {
        Some(path) => PodmanBackend::with_binary(path),
        None => PodmanBackend::new(),
    };
    match service {
        Some((host, port)) => b.with_kubernetes_service(host.as_str(), port),
        None => b,
    }
}

/// The runtime of this kind, on a node where this was found.
pub fn make_container_runtime(
    kind: KubeletBackendKind,
    podman_binary: Option<&str>,
    facts: NodeFacts,
) -> (r: Result<RuntimeChoice, BackendRefused>)
    ensures
        r is Err == is_refused(kind),
        match r {
            Err(BackendRefused::CriIncomplete { missing }) => missing.list()
                == cri_backend::all_gaps(),
            Ok(c) => choice_is(c, kind, crate::lifecycle::opt_text(podman_binary), None, facts),
        },
{
    make_container_runtime_with_apiserver(kind, podman_binary, None, facts)
}

/// The runtime of this kind, on a node where this was found, whose containers find the API server
/// here. Where the socket of a runtime is not there, podman's command takes its place.
pub fn make_container_runtime_with_apiserver(
    kind: KubeletBackendKind,
    podman_binary: Option<&str>,
    apiserver: Option<(String, u16)>,
    facts: NodeFacts,
) -> (r: Result<RuntimeChoice, BackendRefused>)
    ensures
        r is Err == is_refused(kind),
        match r {
            Err(BackendRefused::CriIncomplete { missing }) => missing.list()
                == cri_backend::all_gaps(),
            Ok(c) => choice_is(
                c,
                kind,
                crate::lifecycle::opt_text(podman_binary),
                apiserver,
                facts,
            ),
        },
{
    if let Some(refused) = construction_refusal(kind) {
        return Err(refused);
    }
    let choice = match kind {
        KubeletBackendKind::PodmanApi => if facts.podman_socket {
            RuntimeChoice::PodmanApi { kubernetes_service: apiserver }
        } else {
            RuntimeChoice::Podman(podman(podman_binary, apiserver))
        },
        KubeletBackendKind::Podman => RuntimeChoice::Podman(podman(podman_binary, apiserver)),
        KubeletBackendKind::Cri => match facts.cri {
            Some(b) => match apiserver {
                Some((host, port)) => RuntimeChoice::Cri(
                    b.with_kubernetes_service(host.as_str(), port),
                ),
                None => RuntimeChoice::Cri(b),
            },
            None => RuntimeChoice::Podman(podman(None, apiserver)),
        },
        KubeletBackendKind::Fake => RuntimeChoice::Fake(FakeBackend::new()),
        KubeletBackendKind::Native => RuntimeChoice::Native(
            NativeBackend::new(Isolation::HostProcess, facts.native_log_dir.as_str()),
        ),
    };
    Ok(choice)
}

// ---- laws ----------------------------------------------------------------------------------

/// While anything is missing of the container runtime interface it is the one kind that is
/// refused, whatever is found on the node.
pub proof fn only_the_incomplete_is_refused(kind: KubeletBackendKind)
    ensures
        is_refused(kind) <==> kind == KubeletBackendKind::Cri,
{
}

/// Logs are kept where that is set, or else below the user's directory, or else below that for passing
/// files.
pub proof fn where_logs_are_kept(set_to: Seq<char>, home: Seq<char>, temp: Seq<char>)
    ensures
        log_dir_of(Some(set_to), Some(home), temp) == set_to,
        log_dir_of(Some(set_to), None, temp) == set_to,
        log_dir_of(None, Some(home), temp) == paths::joined(
            home,
            ".local/share/engenho/containers"@,
        ),
        log_dir_of(None, None, temp) == paths::joined(temp, ".local/share/engenho/containers"@),
{
}

/// The runtime that is built is the one that was asked for. Podman is reached by its socket only where
/// that is there and by its command where it is not, as it is where the other's socket is not there.
pub proof fn which_runtime_is_built(
    c: RuntimeChoice,
    kind: KubeletBackendKind,
    binary: Option<Seq<char>>,
    service: Option<(String, u16)>,
    facts: NodeFacts,
)
    requires
        choice_is(c, kind, binary, service, facts),
    ensures
        c is Fake <==> kind is Fake,
        c is Native <==> kind is Native,
        c is PodmanApi <==> kind is PodmanApi && facts.podman_socket,
        c is Cri <==> kind is Cri && facts.cri is Some,
        c is Podman <==> kind is Podman || (kind is PodmanApi && !facts.podman_socket) || (
        kind is Cri && facts.cri is None),
        c matches RuntimeChoice::PodmanApi { kubernetes_service } ==> kubernetes_service == service,
        c matches RuntimeChoice::Podman(b) ==> {
            &&& !(kind is Cri) ==> b.binary@ == match binary {
                Some(p) => p,
                None => "podman"@,
            }
            &&& kind is Cri ==> b.binary@ == "podman"@
            &&& b.pull_policy is Never
            &&& b.registry_auth_file is None
            &&& backend::network_name(b.network) == Some("engenho-net"@)
            &&& b.kubernetes_service is Some == service is Some
            &&& b.kubernetes_service matches Some((h, p)) ==> h@ == service.unwrap().0@ && p
                == service.unwrap().1
        },
        c matches RuntimeChoice::Native(b) ==> b@.log_dir == facts.native_log_dir@
            && b@.isolation is HostProcess,
{
}

} // verus!
