//! What can go wrong.

use vstd::prelude::*;
use crate::text::{cat2, cat3, cat4};

verus! {

/// What can go wrong when a pod is run.
#[derive(Clone, Debug)]
pub enum KubeletError {
    /// The store could not be read or written.
    Store(String),
    /// The container runtime failed.
    Backend(String),
    /// The pod's manifest cannot be run, for this reason.
    InvalidPod { pod: String, reason: String },
    /// The container's process is not reaped yet, so its record stays.
    NotReaped { container_id: String },
    /// A volume could not be taken down.
    VolumeTeardown(String),
}

/// An error in words.
pub open spec fn error_text(e: KubeletError) -> Seq<char> {
    match e {
        KubeletError::Store(s) => "store: "@ + s@,
        KubeletError::Backend(s) => "backend: "@ + s@,
        KubeletError::InvalidPod { pod, reason } => "invalid pod "@ + pod@ + ": "@ + reason@,
        KubeletError::NotReaped { container_id } => "container "@ + container_id@
            + " has not been reaped yet; its record stays until it is"@,
        KubeletError::VolumeTeardown(s) => "volume teardown: "@ + s@,
    }
}

/// The name of an error's kind.
pub open spec fn error_kind(e: KubeletError) -> Seq<char> {
    match e {
        KubeletError::Store(_) => "store"@,
        KubeletError::Backend(_) => "backend"@,
        KubeletError::InvalidPod { .. } => "invalid_pod"@,
        KubeletError::NotReaped { .. } => "not_reaped"@,
        KubeletError::VolumeTeardown(_) => "volume_teardown"@,
    }
}

/// Whether the error says that this pod cannot be run, for this reason.
pub open spec fn invalid_pod(e: KubeletError, pod: Seq<char>, reason: Seq<char>) -> bool {
    e matches KubeletError::InvalidPod { pod: p, reason: r } && p@ == pod && r@ == reason
}

/// Whether the error is one of the runtime, with these words.
pub open spec fn backend_error(e: KubeletError, words: Seq<char>) -> bool {
    e matches KubeletError::Backend(w) && w@ == words
}

impl KubeletError {
    /// The name of the error's kind, which does not change.
    pub fn kind(&self) -> (r: &'static str)
        ensures
            r@ == error_kind(*self),
    {
        match self {
            KubeletError::Store(_) => "store",
            KubeletError::Backend(_) => "backend",
            KubeletError::InvalidPod { .. } => "invalid_pod",
            KubeletError::NotReaped { .. } => "not_reaped",
            KubeletError::VolumeTeardown(_) => "volume_teardown",
        }
    }

    /// The error in words.
    pub fn to_text(&self) -> (r: String)
        ensures
            r@ == error_text(*self),
    {
        match self {
            KubeletError::Store(s) => cat2("store: ", s.as_str()),
            KubeletError::Backend(s) => cat2("backend: ", s.as_str()),
            KubeletError::InvalidPod { pod, reason } => cat4(
                "invalid pod ",
                pod.as_str(),
                ": ",
                reason.as_str(),
            ),
            KubeletError::NotReaped { container_id } => cat3(
                "container ",
                container_id.as_str(),
                " has not been reaped yet; its record stays until it is",
            ),
            KubeletError::VolumeTeardown(s) => cat2("volume teardown: ", s.as_str()),
        }
    }
}

// ---- laws ----------------------------------------------------------------------------------

/// An error is told with its kind first and its own words in full, and each kind has its own name.
pub proof fn how_an_error_is_told(e: KubeletError)
    ensures
        e matches KubeletError::Store(s) ==> error_text(e) == "store: "@ + s@ && error_kind(e)
            == "store"@,
        e matches KubeletError::Backend(s) ==> error_text(e) == "backend: "@ + s@ && error_kind(e)
            == "backend"@,
        e matches KubeletError::InvalidPod { pod, reason } ==> error_text(e) == "invalid pod "@
            + pod@ + ": "@ + reason@ && error_kind(e) == "invalid_pod"@,
        e matches KubeletError::NotReaped { container_id } ==> error_kind(e) == "not_reaped"@
            && error_text(e) == "container "@ + container_id@
            + " has not been reaped yet; its record stays until it is"@,
        e matches KubeletError::VolumeTeardown(s) ==> error_text(e) == "volume teardown: "@ + s@
            && error_kind(e) == "volume_teardown"@,
{
}

/// That a pod cannot be run, and that the runtime failed, are told as that and with just these words.
pub proof fn what_an_error_says(e: KubeletError, pod: Seq<char>, words: Seq<char>)
    ensures
        invalid_pod(e, pod, words) ==> (e matches KubeletError::InvalidPod { pod: p, reason } && p@
            == pod && reason@ == words),
        backend_error(e, words) ==> (e matches KubeletError::Backend(w) && w@ == words),
        !(e is InvalidPod) ==> !invalid_pod(e, pod, words),
        !(e is Backend) ==> !backend_error(e, words),
        e matches KubeletError::InvalidPod { pod: p, reason } ==> p@ == pod && reason@ == words
            ==> invalid_pod(e, pod, words),
        e matches KubeletError::Backend(w) ==> w@ == words ==> backend_error(e, words),
{
}

} // verus!
