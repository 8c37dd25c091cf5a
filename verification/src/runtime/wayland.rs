//! The headless sway compositor of a Wayland session: its configuration,
//! the i3-ipc framing of its control socket, and how its replies are read.
use vstd::prelude::*;

use crate::text::{chars_of, decimal, owned, push_decimal, push_str};

verus! {

broadcast use vstd::string::group_string_axioms;

/// Magic bytes that open every i3-ipc message.
pub open spec fn ipc_magic() -> Seq<u8> {
    seq![0x69u8, 0x33u8, 0x2du8, 0x69u8, 0x70u8, 0x63u8]
}

/// Length of an i3-ipc header: magic, payload length, message type.
pub const IPC_HEADER_LEN: usize = 14;

/// Message type that runs a sway command.
pub const IPC_RUN_COMMAND: u32 = 0;

/// Message type that lists the outputs.
pub const IPC_GET_OUTPUTS: u32 = 3;

/// Configuration of the headless compositor: no Xwayland and an empty bar.
pub const SWAY_CONFIG: &'static str = "xwayland disable\nbar {\n  swaybar_command /bin/true\n}\n";

/// Little-endian bytes of a `u32`.
pub open spec fn le32(v: u32) -> Seq<u8> {
    seq![
        (v & 0xffu32) as u8,
        ((v >> 8u32) & 0xffu32) as u8,
        ((v >> 16u32) & 0xffu32) as u8,
        (v >> 24u32) as u8,
    ]
}

/// Big-endian bytes of a `u32`.
pub open spec fn be32_bytes(v: u32) -> Seq<u8> {
    seq![
        (v >> 24u32) as u8,
        ((v >> 16u32) & 0xffu32) as u8,
        ((v >> 8u32) & 0xffu32) as u8,
        (v & 0xffu32) as u8,
    ]
}

/// The machine's byte order of `v` is one of the two.
pub open spec fn native_order(bytes: Seq<u8>, v: u32) -> bool {
    bytes == le32(v) || bytes == be32_bytes(v)
}

/// `u32::to_ne_bytes`: `v` in the machine's byte order, which is little or
/// big endian; which of the two is not stated.
#[verifier::external_body]
fn native_bytes(v: u32) -> (bytes: [u8; 4])
    ensures
        native_order(bytes@, v),
{
    v.to_ne_bytes()
}

/// `u32::from_ne_bytes`: the value whose bytes in the machine's byte order
/// are `bytes`; which order that is is not stated.
#[verifier::external_body]
fn from_native_bytes(bytes: [u8; 4]) -> (v: u32)
    ensures
        native_order(bytes@, v),
{
    u32::from_ne_bytes(bytes)
}

/// The sway command that sets the headless output's resolution.
pub fn resize_command(width: u16, height: u16) -> (command: String)
    ensures
        command@ == "output HEADLESS-1 resolution "@ + decimal(width as nat) + "x"@ + decimal(
            height as nat,
        ),
{
    let mut command = owned("output HEADLESS-1 resolution ");
    push_decimal(&mut command, width as u64);
    push_str(&mut command, "x");
    push_decimal(&mut command, height as u64);
    command
}

/// A file of the runtime directory is sway's control socket when it is
/// named `sway-ipc.<anything>.sock`.
pub open spec fn sway_ipc_socket_name(name: Seq<char>) -> bool {
    name.len() >= 9 && name.take(9) == "sway-ipc."@ && name.len() >= 5 && name.skip(name.len() - 5)
        == ".sock"@
}

/// Whether `name` is sway's control socket.
pub fn is_sway_ipc_socket(name: &str) -> (r: bool)
    ensures
        r == sway_ipc_socket_name(name@),
{
    proof {
        reveal_strlit("sway-ipc.");
        reveal_strlit(".sock");
    }
    let chars = chars_of(name);
    let prefix = chars_of("sway-ipc.");
    let suffix = chars_of(".sock");
    let n = chars.len();
    if n < 9 {
        return false;
    }
    let mut i: usize = 0;
    while i < 9
        invariant
            i <= 9 <= n == chars@.len(),
            prefix@ == "sway-ipc."@,
            prefix@.len() == 9,
            chars@ == name@,
            forall|k: int| 0 <= k < i ==> chars@[k] == prefix@[k],
        decreases 9 - i,
    {
        if chars[i] != prefix[i] {
            assert(chars@.take(9)[i as int] != "sway-ipc."@[i as int]);
            return false;
        }
        i = i + 1;
    }
    assert(chars@.take(9) =~= "sway-ipc."@);
    let mut j: usize = 0;
    while j < 5
        invariant
            j <= 5,
            9 <= n == chars@.len(),
            suffix@ == ".sock"@,
            suffix@.len() == 5,
            chars@ == name@,
            chars@.take(9) == "sway-ipc."@,
            forall|k: int| 0 <= k < j ==> chars@[n - 5 + k] == suffix@[k],
        decreases 5 - j,
    {
        if chars[n - 5 + j] != suffix[j] {
            assert(chars@.skip(n - 5)[j as int] != ".sock"@[j as int]);
            return false;
        }
        j = j + 1;
    }
    assert(chars@.skip(n - 5) =~= ".sock"@);
    true
}

/// An i3-ipc request: magic, payload length and message type in the
/// machine's byte order, then the payload (its length cut to 32 bits).
pub open spec fn ipc_request_spec(
    length_bytes: Seq<u8>,
    type_bytes: Seq<u8>,
    payload: Seq<u8>,
) -> Seq<u8> {
    ipc_magic() + length_bytes + type_bytes + payload
}

/// Frames a request of type `message_type` with `payload`.
pub fn ipc_request(message_type: u32, payload: &[u8]) -> (request: Vec<u8>)
    ensures
        exists|length_bytes: Seq<u8>, type_bytes: Seq<u8>|
            native_order(length_bytes, payload@.len() as u32) && native_order(type_bytes, message_type)
                && request@ == #[trigger] ipc_request_spec(length_bytes, type_bytes, payload@),
{
    let mut request: Vec<u8> = Vec::new();
    request.push(0x69);
    request.push(0x33);
    request.push(0x2d);
    request.push(0x69);
    request.push(0x70);
    request.push(0x63);
    let length = native_bytes(payload.len() as u32);
    let kind = native_bytes(message_type);
    for i in 0..4
        invariant
            request@ == ipc_magic() + length@.take(i as int),
    {
        request.push(length[i]);
        assert(length@.take(i + 1) =~= length@.take(i as int).push(length@[i as int]));
    }
    assert(length@.take(4) =~= length@);
    for i in 0..4
        invariant
            request@ == ipc_magic() + length@ + kind@.take(i as int),
    {
        request.push(kind[i]);
        assert(kind@.take(i + 1) =~= kind@.take(i as int).push(kind@[i as int]));
    }
    assert(kind@.take(4) =~= kind@);
    for i in 0..payload.len()
        invariant
            request@ == ipc_magic() + length@ + kind@ + payload@.take(i as int),
    {
        request.push(payload[i]);
        assert(payload@.take(i + 1) =~= payload@.take(i as int).push(payload@[i as int]));
    }
    assert(payload@.take(payload@.len() as int) =~= payload@);
    assert(request@ == ipc_request_spec(length@, kind@, payload@));
    request
}

/// The payload length of a reply header, or `None` when the header does not
/// start with the i3-ipc magic.
pub fn ipc_reply_length(header: &[u8]) -> (length: Option<usize>)
    requires
        header@.len() == IPC_HEADER_LEN,
    ensures
        header@.take(6) != ipc_magic() ==> length is None,
        header@.take(6) == ipc_magic() ==> (length matches Some(n) && native_order(
            header@.subrange(6, 10),
            n as u32,
        ) && n == n as u32),
{
    if !(header[0] == 0x69 && header[1] == 0x33 && header[2] == 0x2d && header[3] == 0x69
        && header[4] == 0x70 && header[5] == 0x63) {
        assert(header@.take(6) != ipc_magic()) by {
            if header@.take(6) == ipc_magic() {
                assert(header@.take(6)[0] == header@[0]);
                assert(header@.take(6)[1] == header@[1]);
                assert(header@.take(6)[2] == header@[2]);
                assert(header@.take(6)[3] == header@[3]);
                assert(header@.take(6)[4] == header@[4]);
                assert(header@.take(6)[5] == header@[5]);
            }
        }
        return None;
    }
    assert(header@.take(6) =~= ipc_magic());
    let bytes: [u8; 4] = [header[6], header[7], header[8], header[9]];
    assert(bytes@ =~= header@.subrange(6, 10));
    let value = from_native_bytes(bytes);
    Some(value as usize)
}

/// A run-command reply succeeded when it is a list whose entries all say
/// `"success": true`.
pub open spec fn reply_succeeded(entries: Option<Seq<Option<bool>>>) -> bool {
    match entries {
        Some(list) => forall|i: int| 0 <= i < list.len() ==> list[i] == Some(true),
        None => false,
    }
}

/// Whether a run-command reply, read as its entries' `success` flags (or
/// `None` when it is not a list), reports success.
pub fn command_succeeded(entries: &Option<Vec<Option<bool>>>) -> (ok: bool)
    ensures
        ok == reply_succeeded(
            match entries {
                Some(list) => Some(list@),
                None => None,
            },
        ),
{
    match entries {
        None => false,
        Some(list) => {
            for i in 0..list.len()
                invariant
                    entries matches Some(l) && l@ == list@,
                    forall|k: int| 0 <= k < i ==> list@[k] == Some(true),
            {
                match list[i] {
                    Some(true) => {},
                    _ => {
                        assert(list@[i as int] != Some(true));
                        return false;
                    },
                }
            }
            true
        },
    }
}

/// The success flags of a run-command reply as a sequence.
pub open spec fn flags_view(entries: Option<Vec<Option<bool>>>) -> Option<Seq<Option<bool>>> {
    match entries {
        Some(list) => Some(list@),
        None => None,
    }
}

/// What `serde_json` makes of a run-command reply: the message of its
/// parse error, or the reply's entries' `success` flags (`None` when the
/// reply is not a list; an entry without a boolean `success` gives `None`)
/// together with the reply written back as JSON text.
pub uninterp spec fn json_run_command_reply(reply: Seq<u8>) -> Result<
    (Option<Seq<Option<bool>>>, Seq<char>),
    Seq<char>,
>;

/// The view of a parsed run-command reply.
pub open spec fn parsed_reply_view(parsed: Result<(Option<Vec<Option<bool>>>, String), String>) -> Result<
    (Option<Seq<Option<bool>>>, Seq<char>),
    Seq<char>,
> {
    match parsed {
        Ok((entries, text)) => Ok((flags_view(entries), text@)),
        Err(message) => Err(message@),
    }
}

/// `serde_json::from_slice::<serde_json::Value>` on a reply, read as the
/// entries' `success` flags (`Value::as_array`, `Value::get("success")`,
/// `Value::as_bool`) and the value's JSON text (`Value::to_string`); a parse
/// error gives its message (`serde_json::Error`'s `Display`). Both depend on
/// the bytes alone, and are named, not stated.
#[verifier::external_body]
fn parse_run_command_reply(reply: &[u8]) -> (parsed: Result<(Option<Vec<Option<bool>>>, String), String>)
    ensures
        parsed_reply_view(parsed) == json_run_command_reply(reply@),
{
    let value: serde_json::Value = match serde_json::from_slice(reply) {
        Ok(value) => value,
        Err(error) => return Err(error.to_string()),
    };
    let entries = value.as_array().map(
        |entries| entries.iter().map(|entry| entry.get("success").and_then(serde_json::Value::as_bool)).collect(),
    );
    Ok((entries, value.to_string()))
}

/// Why sway did not apply a run command.
#[derive(Debug, Clone, PartialEq, Eq)]
pub enum WaylandReplyError {
    /// The reply is not JSON; the parser's message.
    InvalidReply(String),
    /// Some entry did not report success; the reply as JSON text.
    CommandFailed(String),
}

/// The outcome of a run command from its parsed reply: the parse error;
/// success when every entry of a list reply says `"success": true`; a
/// failed command, with the reply's text, otherwise.
pub fn run_command_outcome(parsed: Result<(Option<Vec<Option<bool>>>, String), String>) -> (r: Result<
    (),
    WaylandReplyError,
>)
    ensures
        match parsed_reply_view(parsed) {
            Err(message) => r matches Err(WaylandReplyError::InvalidReply(m)) && m@ == message,
            Ok((entries, text)) => if reply_succeeded(entries) {
                r is Ok
            } else {
                r matches Err(WaylandReplyError::CommandFailed(t)) && t@ == text
            },
        },
{
    match parsed {
        Err(message) => Err(WaylandReplyError::InvalidReply(message)),
        Ok((entries, text)) => {
            if command_succeeded(&entries) {
                Ok(())
            } else {
                Err(WaylandReplyError::CommandFailed(text))
            }
        },
    }
}

/// The outcome of a run command from the bytes of sway's reply.
pub fn resize_reply_outcome(reply: &[u8]) -> (r: Result<(), WaylandReplyError>)
    ensures
        match json_run_command_reply(reply@) {
            Err(message) => r matches Err(WaylandReplyError::InvalidReply(m)) && m@ == message,
            Ok((entries, text)) => if reply_succeeded(entries) {
                r is Ok
            } else {
                r matches Err(WaylandReplyError::CommandFailed(t)) && t@ == text
            },
        },
{
    run_command_outcome(parse_run_command_reply(reply))
}

} // verus!
