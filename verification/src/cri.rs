//! The container runtime interface: where a runtime is reached, and how it says that a container
//! ended.

use vstd::prelude::*;
use crate::backend::ExecOutcome;
use crate::number::{self, decimal_i64};
use crate::scan::{self, starts_with, strip_prefix, trim};
use crate::text::{self, cat2, decode_lossy};

verus! {

/// The sockets that are tried, in order, where none is configured.
pub fn default_endpoints() -> (r: Vec<&'static str>)
    ensures
        r@.len() == 3,
        r@[0]@ == "unix:///run/containerd/containerd.sock"@,
        r@[1]@ == "unix:///run/crio/crio.sock"@,
        r@[2]@ == "unix:///var/run/cri-dockerd.sock"@,
{
    vec![
        "unix:///run/containerd/containerd.sock",
        "unix:///run/crio/crio.sock",
        "unix:///var/run/cri-dockerd.sock",
    ]
}

/// The path of a runtime's socket.
#[derive(Clone, Debug, PartialEq, Eq)]
pub struct Endpoint(pub String);

/// The socket path that `raw` names: a `unix://` address or an absolute path, and nothing else.
pub open spec fn socket_path(raw: Seq<char>) -> Option<Seq<char>> {
    let t = scan::trimmed(raw);
    if t.len() == 0 {
        None
    } else if scan::begins(t, "unix://"@) {
        if t.len() == "unix://"@.len() {
            None
        } else {
            Some(t.skip("unix://"@.len() as int))
        }
    } else if t[0] == '/' {
        Some(t)
    } else {
        None
    }
}

impl Endpoint {
    /// The endpoint that `raw` names, where it names a local socket.
    pub fn parse(raw: &str) -> (r: Option<Endpoint>)
        ensures
            match r {
                Some(e) => socket_path(raw@) == Some(e.0@),
                None => socket_path(raw@) is None,
            },
    {
        let trimmed = trim(raw);
        if trimmed.as_str().is_empty() {
            return None;
        }
        if let Some(path) = strip_prefix(trimmed.as_str(), "unix://") {
            if path.as_str().is_empty() {
                return None;
            }
            return Some(Endpoint(path));
        }
        proof {
            reveal_strlit("/");
            assert(scan::begins(trimmed@, "/"@) == (trimmed@[0] == '/')) by {
                assert(trimmed@.take(1) =~= seq![trimmed@[0]]);
                assert("/"@ =~= seq!['/']);
                if trimmed@[0] != '/' {
                    assert(trimmed@.take(1)[0] != "/"@[0]);
                }
            }
        }
        if starts_with(trimmed.as_str(), "/") {
            return Some(Endpoint(trimmed));
        }
        None
    }

    /// The path of the socket.
    pub fn path(&self) -> (r: &str)
        ensures
            r@ == self.0@,
    {
        self.0.as_str()
    }
}

/// How a process ended.
#[derive(Clone, Copy, Debug, PartialEq, Eq, Structural)]
pub enum ExitDisposition {
    /// It exited with this code.
    Code(i32),
    /// This signal ended it.
    Signal(i32),
}

/// The exit code that stands for a disposition: 128 more than the signal, for a signal.
pub open spec fn code_of(d: ExitDisposition) -> int {
    match d {
        ExitDisposition::Code(c) => c as int,
        ExitDisposition::Signal(s) => if s + 128 > i32::MAX {
            i32::MAX as int
        } else {
            s + 128
        },
    }
}

/// A disposition in words.
pub open spec fn disposition_text(d: ExitDisposition) -> Seq<char> {
    match d {
        ExitDisposition::Code(c) => "code "@ + number::decimal(c as int),
        ExitDisposition::Signal(s) => "signal "@ + number::decimal(s as int),
    }
}

impl ExitDisposition {
    /// Only exit code zero is a success.
    pub fn is_success(self) -> (r: bool)
        ensures
            r == (self == ExitDisposition::Code(0)),
    {
        match self {
            ExitDisposition::Code(c) => c == 0,
            ExitDisposition::Signal(_) => false,
        }
    }

    /// The exit code to report.
    pub fn exit_code(self) -> (r: i32)
        ensures
            r == code_of(self),
    {
        match self {
            ExitDisposition::Code(c) => c,
            ExitDisposition::Signal(s) => if s > 0x7fff_ffff - 128 {
                0x7fff_ffff
            } else {
                s + 128
            },
        }
    }

    /// The disposition in words.
    pub fn to_text(self) -> (r: String)
        ensures
            r@ == disposition_text(self),
    {
        match self {
            ExitDisposition::Code(c) => cat2("code ", decimal_i64(c as i64).as_str()),
            ExitDisposition::Signal(s) => cat2("signal ", decimal_i64(s as i64).as_str()),
        }
    }
}

/// What a runtime says a container is doing.
#[derive(Clone, Copy, Debug, PartialEq, Eq, Structural)]
pub enum RunState {
    /// It exists and was not started.
    Created,
    /// It is up.
    Running,
    /// It ended, like this.
    Exited(ExitDisposition),
    /// The runtime cannot tell.
    Unknown,
}

impl RunState {
    /// The state that the numbers of the interface stand for. The exit code counts only where the
    /// container has exited.
    pub fn from_cri(state: i32, exit_code: i32) -> (r: RunState)
        ensures
            r == if state == 0 {
                RunState::Created
            } else if state == 1 {
                RunState::Running
            } else if state == 2 {
                RunState::Exited(ExitDisposition::Code(exit_code))
            } else {
                RunState::Unknown
            },
    {
        match state {
            0 => RunState::Created,
            1 => RunState::Running,
            2 => RunState::Exited(ExitDisposition::Code(exit_code)),
            _ => RunState::Unknown,
        }
    }

    /// Whether the container is up.
    pub fn is_running(self) -> (r: bool)
        ensures
            r == (self is Running),
    {
        match self {
            RunState::Running => true,
            _ => false,
        }
    }

    /// Whether the container has ended.
    pub fn is_terminal(self) -> (r: bool)
        ensures
            r == (self is Exited),
    {
        match self {
            RunState::Exited(_) => true,
            _ => false,
        }
    }

    /// How the container ended, where it has.
    pub fn exit(self) -> (r: Option<ExitDisposition>)
        ensures
            r == match self {
                RunState::Exited(d) => Some(d),
                _ => None,
            },
    {
        match self {
            RunState::Exited(d) => Some(d),
            _ => None,
        }
    }
}

/// The outcome of a command run in a container. Output that is no UTF-8 does not fail it.
pub fn exec_outcome(exit_code: i32, stdout: &[u8], stderr: &[u8]) -> (r: ExecOutcome)
    ensures
        r.exit_code == exit_code,
        r.stdout@ == text::lossy_text(stdout@),
        r.stderr@ == text::lossy_text(stderr@),
        vstd::utf8::valid_utf8(stdout@) ==> r.stdout@ == vstd::utf8::decode_utf8(stdout@),
        vstd::utf8::valid_utf8(stderr@) ==> r.stderr@ == vstd::utf8::decode_utf8(stderr@),
{
    ExecOutcome { exit_code, stdout: decode_lossy(stdout), stderr: decode_lossy(stderr) }
}

// ---- laws ----------------------------------------------------------------------------------

/// A runtime is reached at an absolute path, as it is written or behind `unix://`, and at nothing else.
/// White space around it does not count.
pub proof fn where_a_runtime_is_reached(raw: Seq<char>, path: Seq<char>)
    requires
        path.len() > 0,
    ensures
        scan::trimmed(raw).len() == 0 ==> socket_path(raw) is None,
        scan::trimmed(raw) == "unix://"@ + path ==> socket_path(raw) == Some(path),
        scan::trimmed(raw) == "unix://"@ ==> socket_path(raw) is None,
        scan::trimmed(raw) == path && path[0] == '/' ==> socket_path(raw) == Some(path),
        scan::trimmed(raw) == path && path[0] != '/' && !scan::begins(path, "unix://"@)
            ==> socket_path(raw) is None,
{
    reveal_strlit("unix://");
    assert("unix://"@.len() == 7);
    assert("unix://"@[0] == 'u');
    scan::what_begins_a_text("unix://"@, path, path);
    assert(("unix://"@ + path).skip("unix://"@.len() as int) =~= path);
    assert("unix://"@.take("unix://"@.len() as int) =~= "unix://"@);
    if scan::trimmed(raw) == path && path[0] == '/' {
        if scan::begins(path, "unix://"@) {
            assert(path[0] == "unix://"@[0]) by {
                assert(path.take("unix://"@.len() as int)[0] == path[0]);
            }
        }
    }
}

/// A code stands for itself, and a signal for 128 more than itself, as far as there is room.
pub proof fn what_stands_for_an_end(c: i32)
    ensures
        code_of(ExitDisposition::Code(c)) == c,
        c <= i32::MAX - 128 ==> code_of(ExitDisposition::Signal(c)) == c + 128,
        c > i32::MAX - 128 ==> code_of(ExitDisposition::Signal(c)) == i32::MAX,
        disposition_text(ExitDisposition::Code(c)) == "code "@ + number::decimal(c as int),
        disposition_text(ExitDisposition::Signal(c)) == "signal "@ + number::decimal(c as int),
{
}

} // verus!
