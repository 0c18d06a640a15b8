//! Running a command in a container for a client: what was asked, whether it is served, and what
//! is sent back.

use vstd::prelude::*;
use crate::backend::ExecOutcome;
use crate::exec_channel::{self, encode, exit_status, negotiate, Channel};
use crate::json::{self, Doc, Json};
use crate::scan::{self, split, split_once};
use crate::text::{self, clone_opt, clone_strings, decode_lossy, same};

verus! {

/// Why a command is not run.
#[derive(Clone, Copy, Debug, PartialEq, Eq, Structural)]
pub enum ExecRefusal {
    /// No command was given.
    NoCommand,
    /// There is no running process to write input to.
    StdinUnsupported,
    /// There is no terminal to give it.
    TtyUnsupported,
    /// The client speaks no protocol that is spoken here.
    SubprotocolUnsupported,
}

/// Why a command is not run, in words.
pub open spec fn refusal_text(e: ExecRefusal) -> Seq<char> {
    match e {
        ExecRefusal::NoCommand => "no command given: exec needs at least one `command` parameter"@,
        ExecRefusal::StdinUnsupported => "interactive exec (stdin) is not served: the runtime seam runs a command to completion and returns its output, so there is no running process to write stdin to"@,
        ExecRefusal::TtyUnsupported => "tty exec is not served: allocating a pty requires the streaming runtime seam, which is not wired yet"@,
        ExecRefusal::SubprotocolUnsupported => "client offered no supported stream subprotocol (need v5.channel.k8s.io)"@,
    }
}

impl ExecRefusal {
    /// Why the command is not run, in words.
    pub fn to_text(self) -> (r: &'static str)
        ensures
            r@ == refusal_text(self),
    {
        match self {
            ExecRefusal::NoCommand => "no command given: exec needs at least one `command` parameter",
            ExecRefusal::StdinUnsupported => "interactive exec (stdin) is not served: the runtime seam runs a command to completion and returns its output, so there is no running process to write stdin to",
            ExecRefusal::TtyUnsupported => "tty exec is not served: allocating a pty requires the streaming runtime seam, which is not wired yet",
            ExecRefusal::SubprotocolUnsupported => "client offered no supported stream subprotocol (need v5.channel.k8s.io)",
        }
    }
}

/// What a client asked for.
#[derive(Clone, Debug, PartialEq, Eq)]
pub struct ExecQuery {
    pub command: Vec<String>,
    pub container: Option<String>,
    pub stdin: bool,
    pub stdout: bool,
    pub stderr: bool,
    pub tty: bool,
}

/// What an `ExecQuery` stands for.
#[verifier::ext_equal]
pub struct QueryView {
    pub command: Seq<Seq<char>>,
    pub container: Option<Seq<char>>,
    pub stdin: bool,
    pub stdout: bool,
    pub stderr: bool,
    pub tty: bool,
}

impl View for ExecQuery {
    type V = QueryView;

    open spec fn view(&self) -> QueryView {
        QueryView {
            command: text::texts(self.command@),
            container: crate::lifecycle::opt_string(self.container),
            stdin: self.stdin,
            stdout: self.stdout,
            stderr: self.stderr,
            tty: self.tty,
        }
    }
}

impl Default for ExecQuery {
    fn default() -> (r: ExecQuery)
        ensures
            r@ == nothing_asked(),
    {
        let r = ExecQuery {
            command: Vec::new(),
            container: None,
            stdin: false,
            stdout: false,
            stderr: false,
            tty: false,
        };
        assert(text::texts(r.command@) =~= Seq::<Seq<char>>::empty());
        r
    }
}

/// Nothing was asked for.
pub open spec fn nothing_asked() -> QueryView {
    QueryView {
        command: Seq::empty(),
        container: None,
        stdin: false,
        stdout: false,
        stderr: false,
        tty: false,
    }
}

/// The value of a hexadecimal digit.
pub open spec fn hex_digit(b: u8) -> Option<int> {
    if 48 <= b <= 57 {
        Some(b - 48)
    } else if 65 <= b <= 70 {
        Some(b - 55)
    } else if 97 <= b <= 102 {
        Some(b - 87)
    } else {
        None
    }
}

/// The byte that two characters behind a `%` stand for, where both are hexadecimal digits.
pub open spec fn escaped_byte(a: u8, b: u8) -> Option<u8> {
    match (hex_digit(a), hex_digit(b)) {
        (Some(x), Some(y)) => Some((16 * x + y) as u8),
        _ => None,
    }
}

/// The bytes that an encoded part of a query stands for: `+` is a space, `%` and two digits are a
/// byte, and what is no escape stays.
pub open spec fn unescaped(s: Seq<u8>) -> Seq<u8>
    decreases s.len(),
{
    if s.len() == 0 {
        s
    } else if s[0] == 43 {
        seq![32u8] + unescaped(s.skip(1))
    } else if s[0] == 37 && s.len() > 2 && escaped_byte(s[1], s[2]) is Some {
        seq![escaped_byte(s[1], s[2])->0] + unescaped(s.skip(3))
    } else {
        seq![s[0]] + unescaped(s.skip(1))
    }
}

/// An encoded part of a query as text.
pub open spec fn decoded(s: Seq<char>) -> Seq<char> {
    text::lossy_text(unescaped(vstd::utf8::encode_utf8(s)))
}

fn hex_digit_of(b: u8) -> (r: Option<u8>)
    ensures
        match r {
            Some(d) => hex_digit(b) == Some(d as int) && d < 16,
            None => hex_digit(b) is None,
        },
{
    if 48 <= b && b <= 57 {
        Some(b - 48)
    } else if 65 <= b && b <= 70 {
        Some(b - 55)
    } else if 97 <= b && b <= 102 {
        Some(b - 87)
    } else {
        None
    }
}

fn escaped_byte_of(a: u8, b: u8) -> (r: Option<u8>)
    ensures
        r == escaped_byte(a, b),
{
    match (hex_digit_of(a), hex_digit_of(b)) {
        (Some(x), Some(y)) => Some(16 * x + y),
        _ => None,
    }
}

/// The bytes that an encoded part of a query stands for.
pub fn unescape(bytes: &[u8]) -> (r: Vec<u8>)
    ensures
        r@ == unescaped(bytes@),
{
    let mut out: Vec<u8> = Vec::new();
    let mut i: usize = 0;
    assert(bytes@.skip(0) =~= bytes@);
    while i < bytes.len()
        invariant
            i <= bytes@.len(),
            out@ + unescaped(bytes@.skip(i as int)) =~= unescaped(bytes@),
        decreases bytes@.len() - i,
    {
        let ghost rest = bytes@.skip(i as int);
        assert(rest.skip(1) =~= bytes@.skip(i + 1));
        if bytes[i] == 43 {
            out.push(32);
            i += 1;
        } else if bytes[i] == 37 && bytes.len() - i > 2 {
            assert(rest.skip(3) =~= bytes@.skip(i + 3));
            match escaped_byte_of(bytes[i + 1], bytes[i + 2]) {
                Some(b) => {
                    out.push(b);
                    i += 3;
                },
                None => {
                    out.push(37);
                    i += 1;
                },
            }
        } else {
            out.push(bytes[i]);
            i += 1;
        }
    }
    assert(bytes@.skip(i as int) =~= Seq::<u8>::empty());
    out
}

/// An encoded part of a query as text.
pub fn percent_decode(s: &str) -> (r: String)
    ensures
        r@ == decoded(s@),
        vstd::utf8::valid_utf8(unescaped(vstd::utf8::encode_utf8(s@))) ==> r@
            == vstd::utf8::decode_utf8(unescaped(vstd::utf8::encode_utf8(s@))),
{
    let out = unescape(s.as_bytes());
    decode_lossy(out.as_slice())
}

/// What one parameter, decoded, adds to what was asked.
pub open spec fn asked(q: QueryView, key: Seq<char>, value: Seq<char>) -> QueryView {
    let on = value == "true"@ || value == "1"@;
    if key == "command"@ {
        QueryView { command: q.command.push(value), ..q }
    } else if key == "container"@ {
        QueryView { container: Some(value), ..q }
    } else if key == "stdin"@ || key == "input"@ {
        QueryView { stdin: on, ..q }
    } else if key == "stdout"@ || key == "output"@ {
        QueryView { stdout: on, ..q }
    } else if key == "stderr"@ || key == "error"@ {
        QueryView { stderr: on, ..q }
    } else if key == "tty"@ {
        QueryView { tty: on, ..q }
    } else {
        q
    }
}

/// What one part of a query string adds to what was asked.
pub open spec fn asked_by(q: QueryView, pair: Seq<char>) -> QueryView {
    if pair.len() == 0 {
        q
    } else {
        match scan::halves(pair, '=') {
            Some((k, v)) => asked(q, decoded(k), decoded(v)),
            None => asked(q, decoded(pair), decoded(Seq::empty())),
        }
    }
}

/// What the parts of a query string ask for, one behind the other.
pub open spec fn asked_all(pairs: Seq<Seq<char>>) -> QueryView
    decreases pairs.len(),
{
    if pairs.len() == 0 {
        nothing_asked()
    } else {
        asked_by(asked_all(pairs.drop_last()), pairs.last())
    }
}

impl ExecQuery {
    /// Takes one decoded parameter.
    pub fn take(&mut self, key: &str, value: String)
        ensures
            final(self)@ == asked(old(self)@, key@, value@),
    {
        let on = same(value.as_str(), "true") || same(value.as_str(), "1");
        let ghost before = self.command@;
        proof {
            reveal_strlit("command");
            reveal_strlit("container");
            reveal_strlit("stdin");
            reveal_strlit("input");
            reveal_strlit("stdout");
            reveal_strlit("output");
            reveal_strlit("stderr");
            reveal_strlit("error");
            reveal_strlit("tty");
        }
        if same(key, "command") {
            let ghost word = value@;
            self.command.push(value);
            assert(text::texts(self.command@) =~= text::texts(before).push(word));
        } else if same(key, "container") {
            self.container = Some(value);
        } else if same(key, "stdin") || same(key, "input") {
            self.stdin = on;
        } else if same(key, "stdout") || same(key, "output") {
            self.stdout = on;
        } else if same(key, "stderr") || same(key, "error") {
            self.stderr = on;
        } else if same(key, "tty") {
            self.tty = on;
        }
    }

    /// What a query string asks for. Parameters that mean nothing here are passed over.
    pub fn parse(raw: &str) -> (r: ExecQuery)
        ensures
            r@ == asked_all(scan::pieces(raw@, '&')),
    {
        let pairs = split(raw, '&');
        let ghost all = text::texts(pairs@);
        let mut q = ExecQuery::default();
        let mut i: usize = 0;
        assert(all.take(0) =~= Seq::<Seq<char>>::empty());
        while i < pairs.len()
            invariant
                i <= pairs@.len(),
                all == text::texts(pairs@),
                q@ == asked_all(all.take(i as int)),
            decreases pairs@.len() - i,
        {
            let pair = pairs[i].as_str();
            assert(all.take(i + 1).drop_last() =~= all.take(i as int));
            assert(all.take(i + 1).last() == pair@);
            if !pair.is_empty() {
                match split_once(pair, '=') {
                    Some((k, v)) => {
                        q.take(percent_decode(k.as_str()).as_str(), percent_decode(v.as_str()));
                    },
                    None => {
                        proof {
                            reveal_strlit("");
                            assert(""@ =~= Seq::<char>::empty());
                        }
                        q.take(percent_decode(pair).as_str(), percent_decode(""));
                    },
                }
            }
            i += 1;
        }
        assert(all.take(i as int) =~= all);
        q
    }
}

/// A command that is run for a client.
#[derive(Clone, Debug, PartialEq, Eq)]
pub struct ExecPlan {
    pub argv: Vec<String>,
    pub container: Option<String>,
    pub want_stdout: bool,
    pub want_stderr: bool,
}

/// Whether the command is run, and what is sent back of it. Who asks for neither output gets both.
pub fn plan(q: &ExecQuery, offered_subprotocols: &str) -> (r: Result<ExecPlan, ExecRefusal>)
    ensures
        if !exec_channel::offers_v5(offered_subprotocols@) {
            r == Err::<ExecPlan, ExecRefusal>(ExecRefusal::SubprotocolUnsupported)
        } else if q.command@.len() == 0 {
            r == Err::<ExecPlan, ExecRefusal>(ExecRefusal::NoCommand)
        } else if q.stdin {
            r == Err::<ExecPlan, ExecRefusal>(ExecRefusal::StdinUnsupported)
        } else if q.tty {
            r == Err::<ExecPlan, ExecRefusal>(ExecRefusal::TtyUnsupported)
        } else {
            r matches Ok(p) && p.argv@ == q.command@ && p.container == q.container
                && p.want_stdout == (q.stdout || !q.stderr) && p.want_stderr == (q.stderr
                || !q.stdout)
        },
{
    if negotiate(offered_subprotocols).is_none() {
        return Err(ExecRefusal::SubprotocolUnsupported);
    }
    if q.command.len() == 0 {
        return Err(ExecRefusal::NoCommand);
    }
    if q.stdin {
        return Err(ExecRefusal::StdinUnsupported);
    }
    if q.tty {
        return Err(ExecRefusal::TtyUnsupported);
    }
    Ok(
        ExecPlan {
            argv: clone_strings(q.command.as_slice()),
            container: clone_opt(&q.container),
            want_stdout: q.stdout || !q.stderr,
            want_stderr: q.stderr || !q.stdout,
        },
    )
}

/// The bytes of each frame of a list.
pub open spec fn frame_bytes(v: Seq<Vec<u8>>) -> Seq<Seq<u8>> {
    v.map_values(|f: Vec<u8>| f@)
}

/// The frame that carries a text.
pub open spec fn text_frame(c: Channel, s: Seq<char>) -> Seq<u8> {
    exec_channel::framed(c, vstd::utf8::encode_utf8(s))
}

/// The frames that carry what a command wrote: none for a channel that was not wanted or on which
/// nothing was written.
pub open spec fn output_frames(plan: ExecPlan, out: ExecOutcome) -> Seq<Seq<u8>> {
    (if plan.want_stdout && out.stdout@.len() > 0 {
        seq![text_frame(Channel::Stdout, out.stdout@)]
    } else {
        Seq::empty()
    }) + (if plan.want_stderr && out.stderr@.len() > 0 {
        seq![text_frame(Channel::Stderr, out.stderr@)]
    } else {
        Seq::empty()
    })
}

/// The frames of a command that was run, in order: what it wrote, and always last its status.
pub fn session_frames(plan: &ExecPlan, outcome: &ExecOutcome) -> (r: Vec<Vec<u8>>)
    ensures
        frame_bytes(r@) == output_frames(*plan, *outcome).push(
            text_frame(
                Channel::Error,
                json::json_text(exec_channel::exit_doc(outcome.exit_code as int)),
            ),
        ),
{
    let mut frames: Vec<Vec<u8>> = Vec::new();
    if plan.want_stdout && !outcome.stdout.as_str().is_empty() {
        frames.push(encode(Channel::Stdout, outcome.stdout.as_str().as_bytes()));
    }
    if plan.want_stderr && !outcome.stderr.as_str().is_empty() {
        frames.push(encode(Channel::Stderr, outcome.stderr.as_str().as_bytes()));
    }
    assert(frame_bytes(frames@) =~= output_frames(*plan, *outcome));
    let status = exit_status(outcome.exit_code).to_json();
    let last = encode(Channel::Error, status.as_str().as_bytes());
    let ghost before = frame_bytes(frames@);
    frames.push(last);
    assert(frame_bytes(frames@) =~= before.push(last@));
    frames
}

/// What is sent for a command that could not be run: no exit code, for nothing ran.
pub open spec fn failure_doc(reason: Seq<char>) -> Doc {
    Doc::Obj(
        map![
            "kind"@ => Doc::Str("Status"@),
            "apiVersion"@ => Doc::Str("v1"@),
            "status"@ => Doc::Str("Failure"@),
            "message"@ => Doc::Str(reason),
            "reason"@ => Doc::Str("InternalError"@)
        ],
    )
}

/// What is sent for a command that could not be run.
pub fn failure_status(reason: &str) -> (r: Json)
    ensures
        r@ == failure_doc(reason@),
        json::textual(r),
{
    Json::object().with("kind", Json::string("Status")).with(
        "apiVersion",
        Json::string("v1"),
    ).with("status", Json::string("Failure")).with("message", Json::string(reason)).with(
        "reason",
        Json::string("InternalError"),
    )
}

/// The frame that says that a command could not be run.
pub fn backend_failure_frame(reason: &str) -> (r: Vec<u8>)
    ensures
        r@ == text_frame(Channel::Error, json::json_text(failure_doc(reason@))),
{
    let status = failure_status(reason).to_json();
    encode(Channel::Error, status.as_str().as_bytes())
}

// ---- laws ----------------------------------------------------------------------------------

/// A command's words arrive all, in order, whatever stands between them: one more `command`
/// parameter adds its word at the end, and no other parameter changes them.
pub proof fn command_words_are_kept(q: QueryView, key: Seq<char>, value: Seq<char>)
    ensures
        asked(q, key, value).command == if key == "command"@ {
            q.command.push(value)
        } else {
            q.command
        },
{
}

/// What could not be run never looks like something that ran: the two differ in their contents,
/// whatever the reason and the code.
pub proof fn failure_is_no_exit(reason: Seq<char>, code: int)
    ensures
        failure_doc(reason) != exec_channel::exit_doc(code),
        failure_doc(reason).get("details"@) is None,
{
    reveal_strlit("kind");
    reveal_strlit("apiVersion");
    reveal_strlit("status");
    reveal_strlit("message");
    reveal_strlit("reason");
    reveal_strlit("details");
    reveal_strlit("metadata");
    assert("details"@.len() == 7 && "kind"@.len() == 4 && "status"@.len() == 6 && "reason"@.len()
        == 6 && "apiVersion"@.len() == 10 && "metadata"@.len() == 8);
    assert("message"@[0] == 'm' && "details"@[0] == 'd' && "metadata"@[0] == 'm');
    assert(failure_doc(reason)->Obj_0.dom().contains("kind"@));
    assert(!exec_channel::exit_doc(code)->Obj_0.dom().contains("kind"@));
}

/// Each parameter sets what it names and nothing else; a flag is on where it says `true` or `1`.
pub proof fn what_a_parameter_asks(q: QueryView, key: Seq<char>, value: Seq<char>)
    ensures
        ({
            let r = asked(q, key, value);
            let on = value == "true"@ || value == "1"@;
            &&& r.container == if key == "container"@ {
                Some(value)
            } else {
                q.container
            }
            &&& r.stdin == if key == "stdin"@ || key == "input"@ {
                on
            } else {
                q.stdin
            }
            &&& r.stdout == if key == "stdout"@ || key == "output"@ {
                on
            } else {
                q.stdout
            }
            &&& r.stderr == if key == "stderr"@ || key == "error"@ {
                on
            } else {
                q.stderr
            }
            &&& r.tty == if key == "tty"@ {
                on
            } else {
                q.tty
            }
        }),
{
    reveal_strlit("command");
    reveal_strlit("container");
    reveal_strlit("stdin");
    reveal_strlit("input");
    reveal_strlit("stdout");
    reveal_strlit("output");
    reveal_strlit("stderr");
    reveal_strlit("error");
    reveal_strlit("tty");
    assert("command"@.len() == 7);
    assert("container"@.len() == 9);
    assert("stdin"@.len() == 5);
    assert("input"@.len() == 5);
    assert("error"@.len() == 5);
    assert("stdout"@.len() == 6);
    assert("output"@.len() == 6);
    assert("stderr"@.len() == 6);
    assert("tty"@.len() == 3);
    assert("stdin"@[0] == 's');
    assert("input"@[0] == 'i');
    assert("error"@[0] == 'e');
    assert("stdout"@[0] == 's');
    assert("output"@[0] == 'o');
    assert("stderr"@[0] == 's');
    assert("stdout"@[3] == 'o');
    assert("stderr"@[3] == 'e');
}

/// Parameters are taken one by one, in order, each behind those before it.
pub proof fn parameters_are_taken_in_order(pairs: Seq<Seq<char>>, k: Seq<char>, v: Seq<char>)
    requires
        forall|i: int| 0 <= i < k.len() ==> (#[trigger] k[i]) != '=',
    ensures
        asked_all(Seq::empty()) == nothing_asked(),
        asked_all(pairs.push(k + seq!['='] + v)) == asked(asked_all(pairs), decoded(k), decoded(v)),
        asked_all(pairs.push(Seq::empty())) == asked_all(pairs),
        k.len() > 0 ==> asked_all(pairs.push(k)) == asked(
            asked_all(pairs),
            decoded(k),
            decoded(Seq::empty()),
        ),
        nothing_asked().command.len() == 0,
        nothing_asked().container is None,
        !nothing_asked().stdin && !nothing_asked().stdout && !nothing_asked().stderr
            && !nothing_asked().tty,
{
    let pair = k + seq!['='] + v;
    assert(pairs.push(pair).drop_last() =~= pairs);
    assert(pairs.push(Seq::<char>::empty()).drop_last() =~= pairs);
    assert(pairs.push(k).drop_last() =~= pairs);
    scan::first_at_finds(pair, '=', 0);
    assert(pair[k.len() as int] == '=');
    let i = scan::first_at(pair, '=', 0).unwrap();
    assert(i == k.len()) by {
        if i < k.len() {
            assert(pair[i] == k[i]);
        }
    }
    assert(pair.take(i) =~= k);
    assert(pair.skip(i + 1) =~= v);
    scan::first_at_finds(k, '=', 0);
    if let Some(j) = scan::first_at(k, '=', 0) {
        assert(k[j] != '=');
    }
}

/// A plus is a space, a percent sign and two hexadecimal digits are the byte of that number, and all
/// else, a percent sign without them too, is itself. What is behind it is read on its own.
pub proof fn how_bytes_are_unescaped(b: u8, x: u8, y: u8, rest: Seq<u8>)
    ensures
        unescaped(Seq::empty()).len() == 0,
        b != 43 && b != 37 ==> unescaped(seq![b] + rest) == seq![b] + unescaped(rest),
        unescaped(seq![43u8] + rest) == seq![32u8] + unescaped(rest),
        hex_digit(x) is Some && hex_digit(y) is Some ==> unescaped(seq![37u8, x, y] + rest)
            == seq![(16 * hex_digit(x).unwrap() + hex_digit(y).unwrap()) as u8] + unescaped(rest),
        hex_digit(x) is None || hex_digit(y) is None ==> unescaped(seq![37u8, x, y] + rest)
            == seq![37u8] + unescaped(seq![x, y] + rest),
        unescaped(seq![37u8]) == seq![37u8],
{
    assert((seq![b] + rest).skip(1) =~= rest);
    assert((seq![43u8] + rest).skip(1) =~= rest);
    assert((seq![37u8, x, y] + rest).skip(3) =~= rest);
    assert((seq![37u8, x, y] + rest).skip(1) =~= seq![x, y] + rest);
    assert(seq![37u8].skip(1) =~= Seq::<u8>::empty());
    assert(unescaped(Seq::<u8>::empty()) =~= Seq::<u8>::empty());
}

/// A hexadecimal digit is one of ten and six letters, large or small.
pub proof fn what_is_a_hexadecimal_digit(b: u8)
    ensures
        hex_digit(b) matches Some(n) ==> 0 <= n < 16 && (b == 48 + n && n < 10 || b == 65 + (n - 10)
            && n >= 10 || b == 97 + (n - 10) && n >= 10),
        hex_digit(b) is None ==> b < 48 || 57 < b < 65 || 70 < b < 97 || b > 102,
{
}

/// What a command wrote is sent where it was wanted and there is any: its output first, then its
/// errors, each in one frame.
pub proof fn what_is_sent_of_a_command(plan: ExecPlan, out: ExecOutcome)
    ensures
        ({
            let frames = output_frames(plan, out);
            let a = plan.want_stdout && out.stdout@.len() > 0;
            let b = plan.want_stderr && out.stderr@.len() > 0;
            &&& frames.len() == if a && b {
                2int
            } else if a || b {
                1
            } else {
                0
            }
            &&& a ==> frames[0][0] == 1 && frames[0].skip(1) == vstd::utf8::encode_utf8(
                out.stdout@,
            )
            &&& b ==> frames.last()[0] == 2 && frames.last().skip(1) == vstd::utf8::encode_utf8(
                out.stderr@,
            )
        }),
{
    exec_channel::what_a_frame_carries(vstd::utf8::encode_utf8(out.stdout@));
    exec_channel::what_a_frame_carries(vstd::utf8::encode_utf8(out.stderr@));
    let frames = output_frames(plan, out);
    if plan.want_stdout && out.stdout@.len() > 0 {
        assert(frames[0] == text_frame(Channel::Stdout, out.stdout@));
    }
    if plan.want_stderr && out.stderr@.len() > 0 {
        assert(frames.last() == text_frame(Channel::Stderr, out.stderr@));
    }
}

/// A command that could not be run failed, and the reason is told.
pub proof fn how_a_failure_is_told(reason: Seq<char>)
    ensures
        failure_doc(reason).str_at("status"@) == Some("Failure"@),
        failure_doc(reason).str_at("message"@) == Some(reason),
        failure_doc(reason).str_at("reason"@) == Some("InternalError"@),
        failure_doc(reason).str_at("kind"@) == Some("Status"@),
{
    reveal_strlit("kind");
    reveal_strlit("apiVersion");
    reveal_strlit("status");
    reveal_strlit("message");
    reveal_strlit("reason");
    assert("kind"@.len() == 4);
    assert("apiVersion"@.len() == 10);
    assert("status"@.len() == 6);
    assert("reason"@.len() == 6);
    assert("status"@[0] == 's');
    assert("reason"@[0] == 'r');
    assert("message"@.len() == 7);
}

/// Why a command is not run is told as what it is.
pub proof fn how_a_refusal_is_told()
    ensures
        refusal_text(ExecRefusal::NoCommand)
            == "no command given: exec needs at least one `command` parameter"@,
        refusal_text(ExecRefusal::StdinUnsupported)
            == "interactive exec (stdin) is not served: the runtime seam runs a command to completion and returns its output, so there is no running process to write stdin to"@,
        refusal_text(ExecRefusal::TtyUnsupported)
            == "tty exec is not served: allocating a pty requires the streaming runtime seam, which is not wired yet"@,
        refusal_text(ExecRefusal::SubprotocolUnsupported)
            == "client offered no supported stream subprotocol (need v5.channel.k8s.io)"@,
{
}

} // verus!
