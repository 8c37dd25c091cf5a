//! The guest agent's decisions: its settings, the comparison of the
//! authentication token, and what it does with each client message.
use vstd::prelude::*;
use vstd::utf8::encode_utf8;

use crate::protocol::{ClientMessage, InputEvent};
use crate::text::utf8_bytes;

verus! {

broadcast use vstd::string::group_string_axioms;

/// Longest token, in bytes, that the agent accepts.
pub const MAX_TOKEN_BYTES: usize = 4096;

proof fn lemma_or_zero(d: usize, e: usize)
    ensures
        (d | e) == 0 <==> (d == 0 && e == 0),
{
    assert((d | e) == 0 <==> (d == 0 && e == 0)) by (bit_vector);
}

proof fn lemma_xor_zero_u8(x: u8, y: u8)
    ensures
        ((x ^ y) as usize == 0) <==> (x == y),
{
    assert(((x ^ y) == 0) <==> (x == y)) by (bit_vector);
}

proof fn lemma_xor_zero_usize(x: usize, y: usize)
    ensures
        ((x ^ y) == 0) <==> (x == y),
{
    assert(((x ^ y) == 0) <==> (x == y)) by (bit_vector);
}

/// The byte at `k`, or zero past the end.
pub open spec fn byte_or_zero(bytes: Seq<u8>, k: int) -> u8 {
    if k < bytes.len() {
        bytes[k]
    } else {
        0
    }
}

/// Compares two tokens in time that depends only on their lengths: every
/// byte position up to the longer length is visited.
pub fn constant_time_eq(actual: &str, expected: &str) -> (equal: bool)
    ensures
        equal == (actual@ == expected@),
{
    let a = utf8_bytes(actual);
    let b = utf8_bytes(expected);
    let mut difference: usize = a.len() ^ b.len();
    proof {
        lemma_xor_zero_usize(a.len(), b.len());
    }
    let length = if a.len() > b.len() {
        a.len()
    } else {
        b.len()
    };
    for index in 0..length
        invariant
            length >= a@.len() && length >= b@.len(),
            difference == 0 <==> (a@.len() == b@.len() && forall|k: int|
                0 <= k < index ==> byte_or_zero(a@, k) == byte_or_zero(b@, k)),
    {
        let x: u8 = if index < a.len() {
            a[index]
        } else {
            0
        };
        let y: u8 = if index < b.len() {
            b[index]
        } else {
            0
        };
        proof {
            lemma_xor_zero_u8(x, y);
            lemma_or_zero(difference, (x ^ y) as usize);
            assert(x == byte_or_zero(a@, index as int));
            assert(y == byte_or_zero(b@, index as int));
        }
        difference = difference | ((x ^ y) as usize);
    }
    proof {
        if difference == 0 {
            assert forall|k: int| 0 <= k < a@.len() implies a@[k] == b@[k] by {
                assert(byte_or_zero(a@, k) == byte_or_zero(b@, k));
            }
            assert(a@ =~= b@);
        }
        if a@ == b@ {
            assert forall|k: int| 0 <= k < length implies byte_or_zero(a@, k) == byte_or_zero(
                b@,
                k,
            ) by {}
        }
        vstd::utf8::encode_utf8_decode_utf8(actual@);
        vstd::utf8::encode_utf8_decode_utf8(expected@);
    }
    difference == 0
}

/// A token is accepted when it holds 1 to 4096 bytes.
pub fn token_acceptable(token: &str) -> (ok: bool)
    ensures
        ok == (0 < encode_utf8(token@).len() <= MAX_TOKEN_BYTES),
{
    let bytes = utf8_bytes(token);
    bytes.len() > 0 && bytes.len() <= MAX_TOKEN_BYTES
}

/// Frame rates from 1 to 60 per second are accepted.
pub fn fps_acceptable(fps: u16) -> (ok: bool)
    ensures
        ok == (1 <= fps <= 60),
{
    1 <= fps && fps <= 60
}

/// How the agent answers the first client message.
#[derive(Debug, Clone, Copy, PartialEq, Eq)]
pub enum AuthVerdict {
    /// The client sent the expected token.
    Accepted,
    /// The client sent another token.
    Rejected,
    /// The client sent something other than a token.
    Required,
}

/// Judges the first message of a client against the expected token.
pub fn judge_authentication(message: &ClientMessage, expected: &str) -> (verdict: AuthVerdict)
    ensures
        match message {
            ClientMessage::Authenticate(token) => if token@ == expected@ {
                verdict == AuthVerdict::Accepted
            } else {
                verdict == AuthVerdict::Rejected
            },
            _ => verdict == AuthVerdict::Required,
        },
{
    match message {
        ClientMessage::Authenticate(token) => {
            if constant_time_eq(token.as_str(), expected) {
                AuthVerdict::Accepted
            } else {
                AuthVerdict::Rejected
            }
        },
        _ => AuthVerdict::Required,
    }
}

/// What the agent does with a client message once authenticated.
#[derive(Debug, Clone, PartialEq, Eq)]
pub enum AgentAction {
    /// Replay the input in the session.
    Inject(InputEvent),
    /// End the session normally.
    Stop,
    /// Fail: the client authenticated twice.
    DuplicateAuth,
}

/// The agent's reaction to a message of an authenticated client.
pub fn agent_action(message: ClientMessage) -> (action: AgentAction)
    ensures
        match message {
            ClientMessage::Input(input) => action == AgentAction::Inject(input),
            ClientMessage::Stop => action == AgentAction::Stop,
            ClientMessage::Authenticate(_) => action == AgentAction::DuplicateAuth,
        },
{
    match message {
        ClientMessage::Input(input) => AgentAction::Inject(input),
        ClientMessage::Stop => AgentAction::Stop,
        ClientMessage::Authenticate(_) => AgentAction::DuplicateAuth,
    }
}

} // verus!
