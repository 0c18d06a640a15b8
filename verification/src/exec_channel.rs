//! The frames in which a command's input and output travel between a client and a node.

use vstd::prelude::*;
use crate::json::{self, Doc, Json};
use crate::number::{self, decimal_i64};
use crate::scan::{self, split, trim};
use crate::text::{self, cat2, cat3, same};

verus! {

/// What a frame carries.
#[derive(Clone, Copy, Debug, PartialEq, Eq, Structural)]
pub enum Channel {
    Stdin,
    Stdout,
    Stderr,
    Error,
    Resize,
}

/// The byte that stands for a channel.
pub open spec fn channel_byte(c: Channel) -> u8 {
    match c {
        Channel::Stdin => 0,
        Channel::Stdout => 1,
        Channel::Stderr => 2,
        Channel::Error => 3,
        Channel::Resize => 4,
    }
}

/// The name of a channel.
pub open spec fn channel_name(c: Channel) -> Seq<char> {
    match c {
        Channel::Stdin => "Stdin"@,
        Channel::Stdout => "Stdout"@,
        Channel::Stderr => "Stderr"@,
        Channel::Error => "Error"@,
        Channel::Resize => "Resize"@,
    }
}

impl Channel {
    /// The byte that stands for this channel.
    pub fn as_byte(self) -> (r: u8)
        ensures
            r == channel_byte(self),
    {
        match self {
            Channel::Stdin => 0,
            Channel::Stdout => 1,
            Channel::Stderr => 2,
            Channel::Error => 3,
            Channel::Resize => 4,
        }
    }

    /// The channel that a byte stands for.
    pub fn from_byte(b: u8) -> (r: Option<Channel>)
        ensures
            match r {
                Some(c) => channel_byte(c) == b,
                None => b > 4,
            },
    {
        match b {
            0 => Some(Channel::Stdin),
            1 => Some(Channel::Stdout),
            2 => Some(Channel::Stderr),
            3 => Some(Channel::Error),
            4 => Some(Channel::Resize),
            _ => None,
        }
    }

    /// Whether a client may send on this channel.
    pub fn client_may_send(self) -> (r: bool)
        ensures
            r == (self is Stdin || self is Resize),
    {
        match self {
            Channel::Stdin | Channel::Resize => true,
            _ => false,
        }
    }

    /// The channel's name.
    pub fn name(self) -> (r: &'static str)
        ensures
            r@ == channel_name(self),
    {
        match self {
            Channel::Stdin => "Stdin",
            Channel::Stdout => "Stdout",
            Channel::Stderr => "Stderr",
            Channel::Error => "Error",
            Channel::Resize => "Resize",
        }
    }
}

/// One frame.
#[derive(Clone, Debug, PartialEq, Eq)]
pub struct Frame {
    pub channel: Channel,
    pub payload: Vec<u8>,
}

/// Why a frame is refused.
#[derive(Clone, Copy, Debug, PartialEq, Eq, Structural)]
pub enum FrameError {
    /// There is no byte that names a channel.
    Empty,
    /// The byte names no channel.
    UnknownChannel { byte: u8 },
    /// Only the node sends on the channel.
    ClientMayNotSend { channel: Channel },
}

/// Why a frame is refused, in words.
pub open spec fn frame_error_text(e: FrameError) -> Seq<char> {
    match e {
        FrameError::Empty => "empty frame carries no channel byte"@,
        FrameError::UnknownChannel { byte } => "unknown channel byte "@ + number::decimal(
            byte as int,
        ),
        FrameError::ClientMayNotSend { channel } => "client may not send on the "@ + channel_name(
            channel,
        ) + " channel"@,
    }
}

impl FrameError {
    /// Why the frame is refused, in words.
    pub fn to_text(self) -> (r: String)
        ensures
            r@ == frame_error_text(self),
    {
        match self {
            FrameError::Empty => "empty frame carries no channel byte".to_owned(),
            FrameError::UnknownChannel { byte } => cat2(
                "unknown channel byte ",
                decimal_i64(byte as i64).as_str(),
            ),
            FrameError::ClientMayNotSend { channel } => cat3(
                "client may not send on the ",
                channel.name(),
                " channel",
            ),
        }
    }
}

/// The bytes of a frame: the channel, then what it carries.
pub open spec fn framed(c: Channel, payload: Seq<u8>) -> Seq<u8> {
    seq![channel_byte(c)] + payload
}

/// The bytes of a frame.
pub fn encode(channel: Channel, payload: &[u8]) -> (r: Vec<u8>)
    ensures
        r@ == framed(channel, payload@),
{
    let mut out: Vec<u8> = Vec::new();
    out.push(channel.as_byte());
    let mut i: usize = 0;
    assert(out@ =~= framed(channel, payload@.take(0)));
    while i < payload.len()
        invariant
            i <= payload@.len(),
            out@ == framed(channel, payload@.take(i as int)),
        decreases payload@.len() - i,
    {
        out.push(payload[i]);
        i += 1;
        assert(out@ =~= framed(channel, payload@.take(i as int)));
    }
    assert(payload@.take(i as int) =~= payload@);
    out
}

/// The frame that a client sent.
pub fn decode_from_client(bytes: &[u8]) -> (r: Result<Frame, FrameError>)
    ensures
        if bytes@.len() == 0 {
            r == Err::<Frame, FrameError>(FrameError::Empty)
        } else if bytes@[0] > 4 {
            r == Err::<Frame, FrameError>(FrameError::UnknownChannel { byte: bytes@[0] })
        } else if 1 <= bytes@[0] <= 3 {
            r matches Err(FrameError::ClientMayNotSend { channel }) && channel_byte(channel)
                == bytes@[0]
        } else {
            r matches Ok(f) && framed(f.channel, f.payload@) == bytes@
        },
{
    if bytes.len() == 0 {
        return Err(FrameError::Empty);
    }
    let b = bytes[0];
    let channel = match Channel::from_byte(b) {
        Some(c) => c,
        None => {
            return Err(FrameError::UnknownChannel { byte: b });
        },
    };
    if !channel.client_may_send() {
        return Err(FrameError::ClientMayNotSend { channel });
    }
    let mut payload: Vec<u8> = Vec::new();
    let mut i: usize = 1;
    while i < bytes.len()
        invariant
            1 <= i <= bytes@.len(),
            payload@ == bytes@.subrange(1, i as int),
        decreases bytes@.len() - i,
    {
        payload.push(bytes[i]);
        i += 1;
        assert(payload@ =~= bytes@.subrange(1, i as int));
    }
    assert(framed(channel, payload@) =~= bytes@);
    Ok(Frame { channel, payload })
}

/// The size of a terminal, in characters.
#[derive(Clone, Copy, Debug, PartialEq, Eq, Structural)]
pub struct TerminalSize {
    pub width: u16,
    pub height: u16,
}

/// What is sent last for a command that ended with this code.
pub open spec fn exit_doc(code: int) -> Doc {
    if code == 0 {
        Doc::Obj(
            map![
                "metadata"@ => Doc::Obj(Map::empty()),
                "status"@ => Doc::Str("Success"@)
            ],
        )
    } else {
        Doc::Obj(
            map![
                "metadata"@ => Doc::Obj(Map::empty()),
                "status"@ => Doc::Str("Failure"@),
                "message"@ => Doc::Str(
                    "command terminated with exit code "@ + number::decimal(code),
                ),
                "reason"@ => Doc::Str("NonZeroExitCode"@),
                "details"@ => Doc::Obj(
                    map![
                        "causes"@ => Doc::Arr(
                            seq![
                                Doc::Obj(
                                    map![
                                        "reason"@ => Doc::Str("ExitCode"@),
                                        "message"@ => Doc::Str(number::decimal(code))
                                    ],
                                ),
                            ],
                        )
                    ],
                )
            ],
        )
    }
}

/// What is sent last for a command that ended with this code.
pub fn exit_status(exit_code: i32) -> (r: Json)
    ensures
        r@ == exit_doc(exit_code as int),
        json::textual(r),
{
    if exit_code == 0 {
        return Json::object().with("metadata", Json::object()).with(
            "status",
            Json::string("Success"),
        );
    }
    let digits = decimal_i64(exit_code as i64);
    let cause = Json::object().with("reason", Json::string("ExitCode")).with(
        "message",
        Json::string(digits.as_str()),
    );
    let causes: Vec<Json> = vec![cause];
    proof {
        assert(causes@.drop_last() =~= Seq::empty());
        assert(json::docs(causes@.drop_last()) =~= Seq::<Doc>::empty());
        assert(json::docs(causes@) =~= seq![causes@[0]@]);
        assert(json::all_textual(causes@.drop_last()));
    }
    let details = Json::object().with("causes", Json::array(causes));
    Json::object().with("metadata", Json::object()).with("status", Json::string("Failure")).with(
        "message",
        Json::string(cat2("command terminated with exit code ", digits.as_str()).as_str()),
    ).with("reason", Json::string("NonZeroExitCode")).with("details", details)
}

/// The only stream protocol that is spoken.
pub const SUBPROTOCOL_V5: &'static str = "v5.channel.k8s.io";

/// Whether a list of protocols, set apart by commas, names the one that is spoken.
pub open spec fn offers_v5(offered: Seq<char>) -> bool {
    exists|i: int|
        0 <= i < scan::pieces(offered, ',').len() && scan::trimmed(
            #[trigger] scan::pieces(offered, ',')[i],
        ) == "v5.channel.k8s.io"@
}

/// The protocol to speak with a client that offers these.
pub fn negotiate(offered: &str) -> (r: Option<&'static str>)
    ensures
        match r {
            Some(p) => offers_v5(offered@) && p@ == "v5.channel.k8s.io"@,
            None => !offers_v5(offered@),
        },
{
    let parts = split(offered, ',');
    let ghost all = text::texts(parts@);
    let mut i: usize = 0;
    while i < parts.len()
        invariant
            i <= parts@.len(),
            all == text::texts(parts@),
            all == scan::pieces(offered@, ','),
            forall|k: int|
                0 <= k < i ==> scan::trimmed(#[trigger] all[k]) != "v5.channel.k8s.io"@,
        decreases parts@.len() - i,
    {
        let t = trim(parts[i].as_str());
        assert(all[i as int] == parts@[i as int]@);
        if same(t.as_str(), SUBPROTOCOL_V5) {
            return Some(SUBPROTOCOL_V5);
        }
        i += 1;
    }
    None
}

// ---- laws ----------------------------------------------------------------------------------

/// A channel is known by its byte: no two share one.
pub proof fn channel_bytes_differ(a: Channel, b: Channel)
    requires
        channel_byte(a) == channel_byte(b),
    ensures
        a == b,
{
}

/// What was framed is read back: the channel is the first byte and the payload all that follows.
pub proof fn frames_read_back(a: Channel, p: Seq<u8>, b: Channel, q: Seq<u8>)
    requires
        framed(a, p) == framed(b, q),
    ensures
        a == b,
        p == q,
{
    assert(framed(a, p)[0] == channel_byte(a));
    assert(framed(b, q)[0] == channel_byte(b));
    assert(framed(a, p).skip(1) =~= p);
    assert(framed(b, q).skip(1) =~= q);
}

/// The first byte of a frame says what it carries: input, output, errors, the end, and the size of the
/// terminal, from zero on. What it carries is behind it, unchanged.
pub proof fn what_a_frame_carries(payload: Seq<u8>)
    ensures
        framed(Channel::Stdin, payload)[0] == 0,
        framed(Channel::Stdout, payload)[0] == 1,
        framed(Channel::Stderr, payload)[0] == 2,
        framed(Channel::Error, payload)[0] == 3,
        framed(Channel::Resize, payload)[0] == 4,
        forall|c: Channel| (#[trigger] framed(c, payload)).skip(1) == payload,
        forall|c: Channel| (#[trigger] framed(c, payload)).len() == payload.len() + 1,
{
    assert forall|c: Channel| (#[trigger] framed(c, payload)).skip(1) == payload by {
        assert(framed(c, payload).skip(1) =~= payload);
    }
}

/// A command that ended with zero succeeded; any other failed, and its code is told, in words and as
/// the cause.
pub proof fn how_an_exit_is_told(code: int)
    ensures
        ({
            let d = exit_doc(code);
            &&& code == 0 ==> d.str_at("status"@) == Some("Success"@) && d.get("details"@) is None
            &&& code != 0 ==> {
                &&& d.str_at("status"@) == Some("Failure"@)
                &&& d.str_at("reason"@) == Some("NonZeroExitCode"@)
                &&& d.str_at("message"@) == Some(
                    "command terminated with exit code "@ + number::decimal(code),
                )
                &&& d.arr_at2("details"@, "causes"@) matches Some(causes)
                &&& causes.len() == 1
                &&& causes[0].str_at("reason"@) == Some("ExitCode"@)
                &&& causes[0].str_at("message"@) == Some(number::decimal(code))
            }
        }),
{
    reveal_strlit("metadata");
    reveal_strlit("status");
    reveal_strlit("message");
    reveal_strlit("reason");
    reveal_strlit("details");
    reveal_strlit("causes");
    assert("metadata"@.len() == 8);
    assert("status"@.len() == 6);
    assert("reason"@.len() == 6);
    assert("status"@[0] == 's');
    assert("reason"@[0] == 'r');
    assert("message"@.len() == 7);
    assert("details"@.len() == 7);
    assert("message"@[0] == 'm');
    assert("details"@[0] == 'd');
    if code != 0 {
        assert(exit_doc(code).get("details"@) is Some);
    }
}

/// A protocol is spoken where one of those that are offered, without the white space around it, is the
/// one; none else will do.
pub proof fn which_protocol_is_spoken(offered: Seq<Seq<char>>, i: int)
    requires
        offered.len() > 0,
        forall|k: int, j: int|
            0 <= k < offered.len() && 0 <= j < offered[k].len() ==> #[trigger] offered[k][j] != ',',
    ensures
        0 <= i < offered.len() && scan::trimmed(offered[i]) == "v5.channel.k8s.io"@ ==> offers_v5(
            scan::glued(offered, seq![',']),
        ),
        (forall|k: int|
            0 <= k < offered.len() ==> scan::trimmed(#[trigger] offered[k])
                != "v5.channel.k8s.io"@) ==> !offers_v5(scan::glued(offered, seq![','])),
{
    scan::what_was_put_together_comes_apart(offered, ',');
    if 0 <= i < offered.len() && scan::trimmed(offered[i]) == "v5.channel.k8s.io"@ {
        assert(scan::trimmed(scan::pieces(scan::glued(offered, seq![',']), ',')[i])
            == "v5.channel.k8s.io"@);
    }
}

} // verus!
