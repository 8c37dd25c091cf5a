//! The length-prefixed wire protocol between a GUI agent and its client.
//!
//! A packet is one kind byte, a big-endian `u32` payload length and the
//! payload. Payloads longer than [`MAX_WIRE_PAYLOAD`] are refused on both
//! sides.
use vstd::prelude::*;
use vstd::utf8::{decode_utf8, encode_utf8, valid_utf8};

use crate::protocol::input::{
    InputEvent, InputEventView, KeyEvent, KeyEventView, MouseButton, MouseEvent, MouseKind,
};
use crate::renderer::{Frame, FrameError, FrameView, frame_error_text, rgb_len};
use crate::text::{decimal, push_decimal, push_str, string_from_utf8, utf8_bytes};

verus! {

pub const DEFAULT_AGENT_PORT: u16 = 5943;

pub const MAX_WIRE_PAYLOAD: usize = 67108864;

pub const HELLO: u8 = 1;

pub const FRAME: u8 = 2;

pub const EXIT: u8 = 3;

pub const ERROR: u8 = 4;

pub const AUTH: u8 = 10;

pub const INPUT_KEY: u8 = 11;

pub const INPUT_TEXT: u8 = 12;

pub const INPUT_MOUSE: u8 = 13;

pub const INPUT_RESIZE: u8 = 14;

pub const STOP: u8 = 15;

/// A standard I/O error, carried through unchanged.
#[verifier::external_type_specification]
#[verifier::external_body]
pub struct ExIoError(std::io::Error);

/// `std::io::Error`'s `Display` text. Nothing is stated of it: it comes
/// from the operating system.
#[verifier::external_body]
pub(crate) fn io_error_text(error: &std::io::Error) -> String {
    error.to_string()
}

/// Messages sent by the agent.
#[derive(Debug, Clone, PartialEq, Eq)]
pub enum AgentMessage {
    Hello { width: u16, height: u16 },
    Frame(Frame),
    Exit(String),
    Error(String),
}

/// Messages sent by the client.
#[derive(Debug, Clone, PartialEq, Eq)]
pub enum ClientMessage {
    Authenticate(String),
    Input(InputEvent),
    Stop,
}

#[derive(Debug)]
pub enum WireError {
    Io(std::io::Error),
    PayloadTooLarge(usize),
    InvalidMessage(String),
    Unsupported(&'static str),
}

pub enum AgentMessageView {
    Hello { width: u16, height: u16 },
    Frame(FrameView),
    Exit(Seq<char>),
    Error(Seq<char>),
}

pub enum ClientMessageView {
    Authenticate(Seq<char>),
    Input(InputEventView),
    Stop,
}

pub enum WireErrorView {
    Io,
    PayloadTooLarge(usize),
    InvalidMessage(Seq<char>),
    Unsupported(Seq<char>),
}

impl View for AgentMessage {
    type V = AgentMessageView;

    open spec fn view(&self) -> AgentMessageView {
        match self {
            AgentMessage::Hello { width, height } => AgentMessageView::Hello {
                width: *width,
                height: *height,
            },
            AgentMessage::Frame(frame) => AgentMessageView::Frame(frame@),
            AgentMessage::Exit(text) => AgentMessageView::Exit(text@),
            AgentMessage::Error(text) => AgentMessageView::Error(text@),
        }
    }
}

impl View for ClientMessage {
    type V = ClientMessageView;

    open spec fn view(&self) -> ClientMessageView {
        match self {
            ClientMessage::Authenticate(token) => ClientMessageView::Authenticate(token@),
            ClientMessage::Input(event) => ClientMessageView::Input(event@),
            ClientMessage::Stop => ClientMessageView::Stop,
        }
    }
}

impl View for WireError {
    type V = WireErrorView;

    open spec fn view(&self) -> WireErrorView {
        match self {
            WireError::Io(_) => WireErrorView::Io,
            WireError::PayloadTooLarge(size) => WireErrorView::PayloadTooLarge(*size),
            WireError::InvalidMessage(text) => WireErrorView::InvalidMessage(text@),
            WireError::Unsupported(text) => WireErrorView::Unsupported(text@),
        }
    }
}

/// The message of a wire error; an I/O error's text comes from the system.
pub open spec fn wire_error_text(error: WireErrorView) -> Seq<char> {
    match error {
        WireErrorView::Io => Seq::empty(),
        WireErrorView::PayloadTooLarge(size) => "wire payload is too large: "@ + decimal(size as nat),
        WireErrorView::InvalidMessage(m) => "invalid wire message: "@ + m,
        WireErrorView::Unsupported(m) => "unsupported wire message: "@ + m,
    }
}

impl WireError {
    /// The human-readable message of this error.
    pub fn message(&self) -> (text: String)
        ensures
            !(self@ is Io) ==> text@ == wire_error_text(self@),
    {
        let mut text = String::new();
        match self {
            WireError::Io(error) => {
                text = io_error_text(error);
            },
            WireError::PayloadTooLarge(size) => {
                push_str(&mut text, "wire payload is too large: ");
                push_decimal(&mut text, *size as u64);
            },
            WireError::InvalidMessage(m) => {
                push_str(&mut text, "invalid wire message: ");
                push_str(&mut text, m.as_str());
            },
            WireError::Unsupported(m) => {
                push_str(&mut text, "unsupported wire message: ");
                push_str(&mut text, m);
            },
        }
        text
    }
}

/// Big-endian bytes of a `u16`.
pub open spec fn be16(v: u16) -> Seq<u8> {
    seq![(v >> 8u16) as u8, (v & 0xffu16) as u8]
}

/// Big-endian bytes of a `u32`.
pub open spec fn be32(v: u32) -> Seq<u8> {
    seq![
        (v >> 24u32) as u8,
        ((v >> 16u32) & 0xffu32) as u8,
        ((v >> 8u32) & 0xffu32) as u8,
        (v & 0xffu32) as u8,
    ]
}

/// The big-endian `u16` at `s[i..i + 2]`.
pub open spec fn read_be16(s: Seq<u8>, i: int) -> u16 {
    ((s[i] as u16) << 8u16) | (s[i + 1] as u16)
}

/// The big-endian `u32` at `s[i..i + 4]`.
pub open spec fn read_be32(s: Seq<u8>, i: int) -> u32 {
    ((s[i] as u32) << 24u32) | ((s[i + 1] as u32) << 16u32) | ((s[i + 2] as u32) << 8u32) | (s[i
        + 3] as u32)
}

/// A framed packet: kind, big-endian payload length, payload.
pub open spec fn packet(kind: u8, payload: Seq<u8>) -> Seq<u8> {
    seq![kind] + be32(payload.len() as u32) + payload
}

pub open spec fn mouse_kind_byte(kind: MouseKind) -> u8 {
    match kind {
        MouseKind::Press => 0,
        MouseKind::Release => 1,
        MouseKind::Move => 2,
    }
}

pub open spec fn mouse_button_byte(button: Option<MouseButton>) -> u8 {
    match button {
        Some(MouseButton::Left) => 0,
        Some(MouseButton::Middle) => 1,
        Some(MouseButton::Right) => 2,
        Some(MouseButton::WheelUp) => 3,
        Some(MouseButton::WheelDown) => 4,
        None => 255,
    }
}

/// The kind byte and payload of an agent message.
pub open spec fn agent_packet(message: AgentMessageView) -> (u8, Seq<u8>) {
    match message {
        AgentMessageView::Hello { width, height } => (HELLO, be16(width) + be16(height)),
        AgentMessageView::Frame(frame) => (
            FRAME,
            be32(frame.width) + be32(frame.height) + frame.pixels,
        ),
        AgentMessageView::Exit(text) => (EXIT, encode_utf8(text)),
        AgentMessageView::Error(text) => (ERROR, encode_utf8(text)),
    }
}

/// The UTF-8 bytes of a key event's text; an absent text is empty.
pub open spec fn key_text_bytes(event: KeyEventView) -> Seq<u8> {
    match event.text {
        Some(text) => encode_utf8(text),
        None => Seq::empty(),
    }
}

/// The kind byte and payload of a client message.
pub open spec fn client_packet(message: ClientMessageView) -> (u8, Seq<u8>) {
    match message {
        ClientMessageView::Authenticate(token) => (AUTH, encode_utf8(token)),
        ClientMessageView::Input(InputEventView::Text(text)) => (INPUT_TEXT, encode_utf8(text)),
        ClientMessageView::Input(InputEventView::Key(event)) => (
            INPUT_KEY,
            be32(event.code) + seq![if event.pressed {
                1u8
            } else {
                0u8
            }, event.modifiers] + be32(key_text_bytes(event).len() as u32) + key_text_bytes(
                event,
            ),
        ),
        ClientMessageView::Input(InputEventView::Mouse(event)) => (
            INPUT_MOUSE,
            be32(event.x) + be32(event.y) + seq![
                mouse_kind_byte(event.kind),
                mouse_button_byte(event.button),
                event.modifiers,
            ],
        ),
        ClientMessageView::Input(InputEventView::Resize { width, height }) => (
            INPUT_RESIZE,
            be16(width) + be16(height),
        ),
        ClientMessageView::Stop => (STOP, Seq::empty()),
    }
}

/// The result of framing a packet: its bytes, or the refusal of an oversized payload.
pub open spec fn framed(kind: u8, payload: Seq<u8>) -> Result<Seq<u8>, WireErrorView> {
    if payload.len() > MAX_WIRE_PAYLOAD {
        Err(WireErrorView::PayloadTooLarge(payload.len() as usize))
    } else {
        Ok(packet(kind, payload))
    }
}

/// Splits the first complete packet off a buffer: `Ok(None)` while it is
/// incomplete, `Ok(Some((kind, payload, rest)))` once it is there, and an
/// error as soon as the header announces an oversized payload.
pub open spec fn next_packet(buffer: Seq<u8>) -> Result<
    Option<(u8, Seq<u8>, Seq<u8>)>,
    WireErrorView,
> {
    if buffer.len() < 5 {
        Ok(None)
    } else {
        let length = read_be32(buffer, 1);
        if length > MAX_WIRE_PAYLOAD {
            Err(WireErrorView::PayloadTooLarge(length as usize))
        } else if buffer.len() < 5 + length {
            Ok(None)
        } else {
            Ok(
                Some(
                    (
                        buffer[0],
                        buffer.subrange(5, 5 + length),
                        buffer.subrange(5 + length, buffer.len() as int),
                    ),
                ),
            )
        }
    }
}

pub open spec fn invalid(text: Seq<char>) -> WireErrorView {
    WireErrorView::InvalidMessage(text)
}

/// Decoding of text payloads.
pub open spec fn decode_text_spec(payload: Seq<u8>) -> Result<Seq<char>, WireErrorView> {
    if valid_utf8(payload) {
        Ok(decode_utf8(payload))
    } else {
        Err(invalid("text is not UTF-8"@))
    }
}

/// The agent message a packet carries.
pub open spec fn decode_agent(kind: u8, payload: Seq<u8>) -> Result<
    AgentMessageView,
    WireErrorView,
> {
    if kind == HELLO && payload.len() == 4 {
        Ok(
            AgentMessageView::Hello {
                width: read_be16(payload, 0),
                height: read_be16(payload, 2),
            },
        )
    } else if kind == FRAME && payload.len() >= 8 {
        let width = read_be32(payload, 0);
        let height = read_be32(payload, 4);
        let pixels = payload.subrange(8, payload.len() as int);
        if rgb_len(width, height) > usize::MAX {
            Err(invalid(frame_error_text(FrameError::DimensionsOverflow)))
        } else if pixels.len() != rgb_len(width, height) {
            Err(
                invalid(
                    frame_error_text(
                        FrameError::InvalidBufferLength {
                            expected: rgb_len(width, height) as usize,
                            actual: pixels.len() as usize,
                        },
                    ),
                ),
            )
        } else {
            Ok(AgentMessageView::Frame(FrameView { width, height, pixels }))
        }
    } else if kind == EXIT {
        match decode_text_spec(payload) {
            Ok(text) => Ok(AgentMessageView::Exit(text)),
            Err(e) => Err(e),
        }
    } else if kind == ERROR {
        match decode_text_spec(payload) {
            Ok(text) => Ok(AgentMessageView::Error(text)),
            Err(e) => Err(e),
        }
    } else {
        Err(invalid("agent message type "@ + decimal(kind as nat)))
    }
}

pub open spec fn decode_mouse_kind(byte: u8) -> Option<MouseKind> {
    if byte == 0 {
        Some(MouseKind::Press)
    } else if byte == 1 {
        Some(MouseKind::Release)
    } else if byte == 2 {
        Some(MouseKind::Move)
    } else {
        None
    }
}

pub open spec fn decode_mouse_button(byte: u8) -> Option<Option<MouseButton>> {
    if byte == 0 {
        Some(Some(MouseButton::Left))
    } else if byte == 1 {
        Some(Some(MouseButton::Middle))
    } else if byte == 2 {
        Some(Some(MouseButton::Right))
    } else if byte == 3 {
        Some(Some(MouseButton::WheelUp))
    } else if byte == 4 {
        Some(Some(MouseButton::WheelDown))
    } else if byte == 255 {
        Some(None)
    } else {
        None
    }
}

/// The client message a packet carries.
pub open spec fn decode_client(kind: u8, payload: Seq<u8>) -> Result<
    ClientMessageView,
    WireErrorView,
> {
    if kind == AUTH {
        match decode_text_spec(payload) {
            Ok(text) => Ok(ClientMessageView::Authenticate(text)),
            Err(e) => Err(e),
        }
    } else if kind == INPUT_TEXT {
        match decode_text_spec(payload) {
            Ok(text) => Ok(ClientMessageView::Input(InputEventView::Text(text))),
            Err(e) => Err(e),
        }
    } else if kind == INPUT_KEY && payload.len() >= 10 {
        let text_length = read_be32(payload, 6);
        if payload.len() != 10 + text_length {
            Err(invalid("key text length"@))
        } else {
            match decode_text_spec(payload.subrange(10, payload.len() as int)) {
                Ok(text) => Ok(
                    ClientMessageView::Input(
                        InputEventView::Key(
                            KeyEventView {
                                code: read_be32(payload, 0),
                                pressed: payload[4] != 0,
                                modifiers: payload[5],
                                text: if text.len() == 0 {
                                    None
                                } else {
                                    Some(text)
                                },
                            },
                        ),
                    ),
                ),
                Err(e) => Err(e),
            }
        }
    } else if kind == INPUT_MOUSE && payload.len() == 11 {
        match decode_mouse_kind(payload[8]) {
            None => Err(invalid("mouse kind "@ + decimal(payload[8] as nat))),
            Some(mouse_kind) => match decode_mouse_button(payload[9]) {
                None => Err(invalid("mouse button "@ + decimal(payload[9] as nat))),
                Some(button) => Ok(
                    ClientMessageView::Input(
                        InputEventView::Mouse(
                            MouseEvent {
                                x: read_be32(payload, 0),
                                y: read_be32(payload, 4),
                                kind: mouse_kind,
                                button,
                                modifiers: payload[10],
                            },
                        ),
                    ),
                ),
            },
        }
    } else if kind == INPUT_RESIZE && payload.len() == 4 {
        Ok(
            ClientMessageView::Input(
                InputEventView::Resize { width: read_be16(payload, 0), height: read_be16(payload, 2) },
            ),
        )
    } else if kind == STOP && payload.len() == 0 {
        Ok(ClientMessageView::Stop)
    } else {
        Err(invalid("client message type "@ + decimal(kind as nat)))
    }
}

/// One decoding step: the outcome and the buffer left behind. A packet that
/// was split off stays consumed even when its payload is rejected.
pub open spec fn next_agent_spec(buffer: Seq<u8>) -> (
    Result<Option<AgentMessageView>, WireErrorView>,
    Seq<u8>,
) {
    match next_packet(buffer) {
        Err(e) => (Err(e), buffer),
        Ok(None) => (Ok(None), buffer),
        Ok(Some((kind, payload, rest))) => match decode_agent(kind, payload) {
            Ok(message) => (Ok(Some(message)), rest),
            Err(e) => (Err(e), rest),
        },
    }
}

pub open spec fn next_client_spec(buffer: Seq<u8>) -> (
    Result<Option<ClientMessageView>, WireErrorView>,
    Seq<u8>,
) {
    match next_packet(buffer) {
        Err(e) => (Err(e), buffer),
        Ok(None) => (Ok(None), buffer),
        Ok(Some((kind, payload, rest))) => match decode_client(kind, payload) {
            Ok(message) => (Ok(Some(message)), rest),
            Err(e) => (Err(e), rest),
        },
    }
}

pub open spec fn agent_result_view(r: Result<Option<AgentMessage>, WireError>) -> Result<
    Option<AgentMessageView>,
    WireErrorView,
> {
    match r {
        Ok(Some(message)) => Ok(Some(message@)),
        Ok(None) => Ok(None),
        Err(e) => Err(e@),
    }
}

pub open spec fn client_result_view(r: Result<Option<ClientMessage>, WireError>) -> Result<
    Option<ClientMessageView>,
    WireErrorView,
> {
    match r {
        Ok(Some(message)) => Ok(Some(message@)),
        Ok(None) => Ok(None),
        Err(e) => Err(e@),
    }
}

proof fn lemma_be16(v: u16)
    ensures
        read_be16(be16(v), 0) == v,
{
    let s = be16(v);
    let hi = (v >> 8u16) as u8;
    let lo = (v & 0xffu16) as u8;
    assert(((hi as u16) << 8u16) | (lo as u16) == v) by (bit_vector)
        requires
            hi == (v >> 8u16) as u8,
            lo == (v & 0xffu16) as u8,
    ;
}

proof fn lemma_be32(v: u32)
    ensures
        read_be32(be32(v), 0) == v,
{
    let b0 = (v >> 24u32) as u8;
    let b1 = ((v >> 16u32) & 0xffu32) as u8;
    let b2 = ((v >> 8u32) & 0xffu32) as u8;
    let b3 = (v & 0xffu32) as u8;
    assert(((b0 as u32) << 24u32) | ((b1 as u32) << 16u32) | ((b2 as u32) << 8u32) | (b3 as u32)
        == v) by (bit_vector)
        requires
            b0 == (v >> 24u32) as u8,
            b1 == ((v >> 16u32) & 0xffu32) as u8,
            b2 == ((v >> 8u32) & 0xffu32) as u8,
            b3 == (v & 0xffu32) as u8,
    ;
}

proof fn lemma_read_shift16(a: Seq<u8>, b: Seq<u8>, i: int)
    requires
        0 <= i,
        i + 2 <= b.len(),
    ensures
        read_be16(a + b, a.len() + i) == read_be16(b, i),
{
    assert((a + b)[a.len() + i] == b[i]);
    assert((a + b)[a.len() + i + 1] == b[i + 1]);
}

proof fn lemma_read_shift32(a: Seq<u8>, b: Seq<u8>, i: int)
    requires
        0 <= i,
        i + 4 <= b.len(),
    ensures
        read_be32(a + b, a.len() + i) == read_be32(b, i),
{
    assert((a + b)[a.len() + i] == b[i]);
    assert((a + b)[a.len() + i + 1] == b[i + 1]);
    assert((a + b)[a.len() + i + 2] == b[i + 2]);
    assert((a + b)[a.len() + i + 3] == b[i + 3]);
}

proof fn lemma_read_prefix32(a: Seq<u8>, b: Seq<u8>, i: int)
    requires
        0 <= i,
        i + 4 <= a.len(),
    ensures
        read_be32(a + b, i) == read_be32(a, i),
{
    assert((a + b)[i] == a[i]);
    assert((a + b)[i + 1] == a[i + 1]);
    assert((a + b)[i + 2] == a[i + 2]);
    assert((a + b)[i + 3] == a[i + 3]);
}

proof fn lemma_read_prefix16(a: Seq<u8>, b: Seq<u8>, i: int)
    requires
        0 <= i,
        i + 2 <= a.len(),
    ensures
        read_be16(a + b, i) == read_be16(a, i),
{
    assert((a + b)[i] == a[i]);
    assert((a + b)[i + 1] == a[i + 1]);
}

/// Appends the big-endian bytes of `value`.
fn push_be16(out: &mut Vec<u8>, value: u16)
    ensures
        final(out)@ == old(out)@ + be16(value),
{
    out.push((value >> 8u16) as u8);
    out.push((value & 0xffu16) as u8);
    assert(final(out)@ =~= old(out)@ + be16(value));
}

/// Appends the big-endian bytes of `value`.
fn push_be32(out: &mut Vec<u8>, value: u32)
    ensures
        final(out)@ == old(out)@ + be32(value),
{
    out.push((value >> 24u32) as u8);
    out.push(((value >> 16u32) & 0xffu32) as u8);
    out.push(((value >> 8u32) & 0xffu32) as u8);
    out.push((value & 0xffu32) as u8);
    assert(final(out)@ =~= old(out)@ + be32(value));
}

fn get_be16(bytes: &Vec<u8>, i: usize) -> (v: u16)
    requires
        i + 2 <= bytes@.len(),
    ensures
        v == read_be16(bytes@, i as int),
{
    let _n = bytes.len();
    ((bytes[i] as u16) << 8u16) | (bytes[i + 1] as u16)
}

fn get_be32(bytes: &Vec<u8>, i: usize) -> (v: u32)
    requires
        i + 4 <= bytes@.len(),
    ensures
        v == read_be32(bytes@, i as int),
{
    let _n = bytes.len();
    ((bytes[i] as u32) << 24u32) | ((bytes[i + 1] as u32) << 16u32) | ((bytes[i + 2] as u32)
        << 8u32) | (bytes[i + 3] as u32)
}

fn write_packet(writer: &mut Vec<u8>, kind: u8, payload: &Vec<u8>) -> (r: Result<(), WireError>)
    ensures
        match framed(kind, payload@) {
            Ok(bytes) => r is Ok && final(writer)@ == old(writer)@ + bytes,
            Err(e) => (r matches Err(error) && error@ == e) && final(writer)@ == old(writer)@,
        },
{
    if payload.len() > MAX_WIRE_PAYLOAD {
        return Err(WireError::PayloadTooLarge(payload.len()));
    }
    let ghost before = writer@;
    writer.push(kind);
    push_be32(writer, payload.len() as u32);
    let mut i: usize = 0;
    while i < payload.len()
        invariant
            i <= payload@.len(),
            payload@.len() <= MAX_WIRE_PAYLOAD,
            writer@ == before + seq![kind] + be32(payload@.len() as u32) + payload@.subrange(
                0,
                i as int,
            ),
        decreases payload@.len() - i,
    {
        writer.push(payload[i]);
        i = i + 1;
        assert(payload@.subrange(0, i as int) == payload@.subrange(0, i - 1).push(
            payload@[i - 1],
        ));
    }
    assert(payload@.subrange(0, i as int) == payload@);
    assert(writer@ =~= before + packet(kind, payload@));
    Ok(())
}

/// Appends the packet of an agent message to `writer`; an oversized payload
/// is refused and nothing is written.
pub fn write_agent_message(writer: &mut Vec<u8>, message: &AgentMessage) -> (r: Result<
    (),
    WireError,
>)
    ensures
        match framed(agent_packet(message@).0, agent_packet(message@).1) {
            Ok(bytes) => r is Ok && final(writer)@ == old(writer)@ + bytes,
            Err(e) => (r matches Err(error) && error@ == e) && final(writer)@ == old(writer)@,
        },
{
    let mut payload: Vec<u8> = Vec::new();
    let kind = match message {
        AgentMessage::Hello { width, height } => {
            push_be16(&mut payload, *width);
            push_be16(&mut payload, *height);
            HELLO
        },
        AgentMessage::Frame(frame) => {
            push_be32(&mut payload, frame.width());
            push_be32(&mut payload, frame.height());
            let pixels = frame.pixels();
            let ghost before = payload@;
            let mut i: usize = 0;
            while i < pixels.len()
                invariant
                    i <= pixels@.len(),
                    payload@ == before + pixels@.subrange(0, i as int),
                decreases pixels@.len() - i,
            {
                payload.push(pixels[i]);
                i = i + 1;
                assert(pixels@.subrange(0, i as int) == pixels@.subrange(0, i - 1).push(
                    pixels@[i - 1],
                ));
            }
            assert(pixels@.subrange(0, i as int) == pixels@);
            FRAME
        },
        AgentMessage::Exit(text) => {
            payload = utf8_bytes(text.as_str());
            EXIT
        },
        AgentMessage::Error(text) => {
            payload = utf8_bytes(text.as_str());
            ERROR
        },
    };
    assert(payload@ == agent_packet(message@).1);
    write_packet(writer, kind, &payload)
}

/// Appends the packet of a client message to `writer`; an oversized payload
/// is refused and nothing is written.
pub fn write_client_message(writer: &mut Vec<u8>, message: &ClientMessage) -> (r: Result<
    (),
    WireError,
>)
    ensures
        match framed(client_packet(message@).0, client_packet(message@).1) {
            Ok(bytes) => r is Ok && final(writer)@ == old(writer)@ + bytes,
            Err(e) => (r matches Err(error) && error@ == e) && final(writer)@ == old(writer)@,
        },
{
    let mut payload: Vec<u8> = Vec::new();
    let kind = match message {
        ClientMessage::Authenticate(token) => {
            payload = utf8_bytes(token.as_str());
            AUTH
        },
        ClientMessage::Input(InputEvent::Text(text)) => {
            payload = utf8_bytes(text.as_str());
            INPUT_TEXT
        },
        ClientMessage::Input(InputEvent::Key(event)) => {
            let mut text = match &event.text {
                Some(text) => utf8_bytes(text.as_str()),
                None => Vec::new(),
            };
            push_be32(&mut payload, event.code);
            payload.push(if event.pressed {
                1u8
            } else {
                0u8
            });
            payload.push(event.modifiers);
            push_be32(&mut payload, text.len() as u32);
            payload.append(&mut text);
            INPUT_KEY
        },
        ClientMessage::Input(InputEvent::Mouse(event)) => {
            push_be32(&mut payload, event.x);
            push_be32(&mut payload, event.y);
            payload.push(
                match event.kind {
                    MouseKind::Press => 0u8,
                    MouseKind::Release => 1u8,
                    MouseKind::Move => 2u8,
                },
            );
            payload.push(
                match event.button {
                    Some(MouseButton::Left) => 0u8,
                    Some(MouseButton::Middle) => 1u8,
                    Some(MouseButton::Right) => 2u8,
                    Some(MouseButton::WheelUp) => 3u8,
                    Some(MouseButton::WheelDown) => 4u8,
                    None => 255u8,
                },
            );
            payload.push(event.modifiers);
            INPUT_MOUSE
        },
        ClientMessage::Input(InputEvent::Resize { width, height }) => {
            push_be16(&mut payload, *width);
            push_be16(&mut payload, *height);
            INPUT_RESIZE
        },
        ClientMessage::Stop => STOP,
    };
    assert(payload@ =~= client_packet(message@).1);
    write_packet(writer, kind, &payload)
}

fn decode_text(payload: Vec<u8>) -> (r: Result<String, WireError>)
    ensures
        match decode_text_spec(payload@) {
            Ok(text) => r matches Ok(s) && s@ == text,
            Err(e) => r matches Err(error) && error@ == e,
        },
{
    match string_from_utf8(payload) {
        Some(text) => Ok(text),
        None => {
            let mut message = String::new();
            push_str(&mut message, "text is not UTF-8");
            Err(WireError::InvalidMessage(message))
        },
    }
}

fn invalid_with_number(prefix: &str, value: u8) -> (e: WireError)
    ensures
        e@ == invalid(prefix@ + decimal(value as nat)),
{
    let mut message = String::new();
    push_str(&mut message, prefix);
    push_decimal(&mut message, value as u64);
    WireError::InvalidMessage(message)
}

fn invalid_text(text: &str) -> (e: WireError)
    ensures
        e@ == invalid(text@),
{
    let mut message = String::new();
    push_str(&mut message, text);
    WireError::InvalidMessage(message)
}

/// An agent message that can travel on the wire: a frame's buffer matches
/// its size, and the payload is within [`MAX_WIRE_PAYLOAD`].
pub open spec fn agent_message_sendable(message: AgentMessageView) -> bool {
    &&& message matches AgentMessageView::Frame(frame) ==> frame.pixels.len() == rgb_len(
        frame.width,
        frame.height,
    )
    &&& agent_packet(message).1.len() <= MAX_WIRE_PAYLOAD
}

/// A client message that survives the wire unchanged: its payload is within
/// [`MAX_WIRE_PAYLOAD`], and a key event's text, when present, is not empty
/// (an empty text reads back as no text).
pub open spec fn client_message_sendable(message: ClientMessageView) -> bool {
    &&& message matches ClientMessageView::Input(InputEventView::Key(event)) ==> (
    event.text matches Some(text) ==> text.len() > 0)
    &&& client_packet(message).1.len() <= MAX_WIRE_PAYLOAD
}

proof fn lemma_packet_split(kind: u8, payload: Seq<u8>, rest: Seq<u8>)
    requires
        payload.len() <= MAX_WIRE_PAYLOAD,
    ensures
        next_packet(packet(kind, payload) + rest) == Ok::<
            Option<(u8, Seq<u8>, Seq<u8>)>,
            WireErrorView,
        >(Some((kind, payload, rest))),
{
    let header = seq![kind] + be32(payload.len() as u32);
    let buffer = packet(kind, payload) + rest;
    assert(buffer == header + (payload + rest));
    lemma_be32(payload.len() as u32);
    lemma_read_shift32(seq![kind], be32(payload.len() as u32), 0);
    lemma_read_prefix32(header, payload + rest, 1);
    assert(read_be32(buffer, 1) == payload.len());
    assert(buffer[0] == kind);
    assert(buffer.subrange(5, 5 + payload.len() as int) =~= payload);
    assert(buffer.subrange(5 + payload.len() as int, buffer.len() as int) =~= rest);
}

proof fn lemma_text_round_trip(text: Seq<char>)
    ensures
        decode_text_spec(encode_utf8(text)) == Ok::<Seq<char>, WireErrorView>(text),
{
    vstd::utf8::encode_utf8_valid_utf8(text);
    vstd::utf8::encode_utf8_decode_utf8(text);
}

/// Whatever follows it in the stream, the packet of a sendable agent message
/// decodes back to that message and leaves exactly what followed.
pub proof fn lemma_agent_round_trip(message: AgentMessageView, rest: Seq<u8>)
    requires
        agent_message_sendable(message),
    ensures
        next_agent_spec(packet(agent_packet(message).0, agent_packet(message).1) + rest) == (
        Ok::<Option<AgentMessageView>, WireErrorView>(Some(message)),
        rest,
        ),
{
    let (kind, payload) = agent_packet(message);
    lemma_packet_split(kind, payload, rest);
    match message {
        AgentMessageView::Hello { width, height } => {
            lemma_be16(width);
            lemma_be16(height);
            lemma_read_prefix16(be16(width), be16(height), 0);
            lemma_read_shift16(be16(width), be16(height), 0);
        },
        AgentMessageView::Frame(frame) => {
            let head = be32(frame.width) + be32(frame.height);
            assert(payload == head + frame.pixels);
            lemma_be32(frame.width);
            lemma_be32(frame.height);
            lemma_read_prefix32(be32(frame.width), be32(frame.height), 0);
            lemma_read_shift32(be32(frame.width), be32(frame.height), 0);
            lemma_read_prefix32(head, frame.pixels, 0);
            lemma_read_prefix32(head, frame.pixels, 4);
            assert(payload.subrange(8, payload.len() as int) =~= frame.pixels);
            assert(rgb_len(frame.width, frame.height) <= usize::MAX);
        },
        AgentMessageView::Exit(text) => {
            lemma_text_round_trip(text);
        },
        AgentMessageView::Error(text) => {
            lemma_text_round_trip(text);
        },
    }
}

/// Whatever follows it in the stream, the packet of a sendable client
/// message decodes back to that message and leaves exactly what followed.
pub proof fn lemma_client_round_trip(message: ClientMessageView, rest: Seq<u8>)
    requires
        client_message_sendable(message),
    ensures
        next_client_spec(packet(client_packet(message).0, client_packet(message).1) + rest) == (
        Ok::<Option<ClientMessageView>, WireErrorView>(Some(message)),
        rest,
        ),
{
    let (kind, payload) = client_packet(message);
    lemma_packet_split(kind, payload, rest);
    match message {
        ClientMessageView::Authenticate(token) => {
            lemma_text_round_trip(token);
        },
        ClientMessageView::Input(InputEventView::Text(text)) => {
            lemma_text_round_trip(text);
        },
        ClientMessageView::Input(InputEventView::Key(event)) => {
            let text = key_text_bytes(event);
            let pressed: u8 = if event.pressed {
                1u8
            } else {
                0u8
            };
            let a = be32(event.code);
            let b = seq![pressed, event.modifiers];
            let c = be32(text.len() as u32);
            assert(payload == a + b + c + text);
            assert(payload == a + (b + (c + text)));
            lemma_be32(event.code);
            lemma_be32(text.len() as u32);
            lemma_read_prefix32(a, b + (c + text), 0);
            assert(payload == (a + b) + (c + text));
            lemma_read_shift32(a + b, c + text, 0);
            lemma_read_prefix32(c, text, 0);
            assert(payload[4] == pressed);
            assert(payload[5] == event.modifiers);
            assert(payload.subrange(10, payload.len() as int) =~= text);
            match event.text {
                Some(t) => {
                    lemma_text_round_trip(t);
                },
                None => {
                    lemma_text_round_trip(Seq::empty());
                    assert(encode_utf8(Seq::<char>::empty()) =~= Seq::<u8>::empty());
                },
            }
        },
        ClientMessageView::Input(InputEventView::Mouse(event)) => {
            let a = be32(event.x);
            let b = be32(event.y);
            let c = seq![
                mouse_kind_byte(event.kind),
                mouse_button_byte(event.button),
                event.modifiers,
            ];
            assert(payload == a + (b + c));
            lemma_be32(event.x);
            lemma_be32(event.y);
            lemma_read_prefix32(a, b + c, 0);
            assert(payload == (a + b) + c);
            lemma_read_prefix32(b, c, 0);
            lemma_read_shift32(a, b + c, 0);
            assert(payload[8] == mouse_kind_byte(event.kind));
            assert(payload[9] == mouse_button_byte(event.button));
            assert(payload[10] == event.modifiers);
        },
        ClientMessageView::Input(InputEventView::Resize { width, height }) => {
            lemma_be16(width);
            lemma_be16(height);
            lemma_read_prefix16(be16(width), be16(height), 0);
            lemma_read_shift16(be16(width), be16(height), 0);
        },
        ClientMessageView::Stop => {},
    }
}

/// Bytes that are only a prefix of a packet whose header is acceptable
/// decode to nothing yet, and stay buffered.
pub proof fn lemma_partial_packet_waits(kind: u8, payload: Seq<u8>, received: int)
    requires
        payload.len() <= MAX_WIRE_PAYLOAD,
        0 <= received < packet(kind, payload).len(),
    ensures
        next_packet(packet(kind, payload).subrange(0, received)) == Ok::<
            Option<(u8, Seq<u8>, Seq<u8>)>,
            WireErrorView,
        >(None),
{
    let whole = packet(kind, payload);
    let prefix = whole.subrange(0, received);
    if received >= 5 {
        lemma_packet_split(kind, payload, Seq::empty());
        assert(whole + Seq::<u8>::empty() =~= whole);
        assert(read_be32(prefix, 1) == read_be32(whole, 1));
    }
}

/// Reassembles packets from a byte stream.
pub struct WireDecoder {
    buffer: Vec<u8>,
}

impl View for WireDecoder {
    type V = Seq<u8>;

    closed spec fn view(&self) -> Seq<u8> {
        self.buffer@
    }
}

impl WireDecoder {
    /// An empty decoder.
    pub fn new() -> (decoder: Self)
        ensures
            decoder@ == Seq::<u8>::empty(),
    {
        WireDecoder { buffer: Vec::new() }
    }

    /// Buffers received bytes; refuses to hold more than one maximal packet.
    pub fn push(&mut self, bytes: &[u8]) -> (r: Result<(), WireError>)
        ensures
            old(self)@.len() + bytes@.len() > MAX_WIRE_PAYLOAD + 5 ==> (r matches Err(e) && e@
                == WireErrorView::PayloadTooLarge(
                if old(self)@.len() + bytes@.len() > usize::MAX {
                    usize::MAX
                } else {
                    (old(self)@.len() + bytes@.len()) as usize
                },
            )) && final(self)@ == old(self)@,
            old(self)@.len() + bytes@.len() <= MAX_WIRE_PAYLOAD + 5 ==> r is Ok && final(self)@
                == old(self)@ + bytes@,
    {
        let size = self.buffer.len().saturating_add(bytes.len());
        if size > MAX_WIRE_PAYLOAD + 5 {
            return Err(WireError::PayloadTooLarge(size));
        }
        let ghost before = self.buffer@;
        let mut i: usize = 0;
        while i < bytes.len()
            invariant
                i <= bytes@.len(),
                self.buffer@ == before + bytes@.subrange(0, i as int),
            decreases bytes@.len() - i,
        {
            self.buffer.push(bytes[i]);
            i = i + 1;
            assert(bytes@.subrange(0, i as int) == bytes@.subrange(0, i - 1).push(bytes@[i - 1]));
        }
        assert(bytes@.subrange(0, i as int) == bytes@);
        Ok(())
    }

    fn next_packet(&mut self) -> (r: Result<Option<(u8, Vec<u8>)>, WireError>)
        ensures
            match next_packet(old(self)@) {
                Err(e) => (r matches Err(error) && error@ == e) && final(self)@ == old(self)@,
                Ok(None) => r matches Ok(None) && final(self)@ == old(self)@,
                Ok(Some((kind, payload, rest))) => (r matches Ok(Some((k, p))) && k == kind && p@
                    == payload) && final(self)@ == rest,
            },
    {
        if self.buffer.len() < 5 {
            return Ok(None);
        }
        let length = get_be32(&self.buffer, 1);
        if length as usize > MAX_WIRE_PAYLOAD {
            return Err(WireError::PayloadTooLarge(length as usize));
        }
        let packet_length = 5 + length as usize;
        if self.buffer.len() < packet_length {
            return Ok(None);
        }
        let kind = self.buffer[0];
        let rest = self.buffer.split_off(packet_length);
        let payload = self.buffer.split_off(5);
        self.buffer = rest;
        Ok(Some((kind, payload)))
    }

    /// Decodes the next agent message once its packet is complete.
    pub fn next_agent(&mut self) -> (r: Result<Option<AgentMessage>, WireError>)
        ensures
            agent_result_view(r) == next_agent_spec(old(self)@).0,
            final(self)@ == next_agent_spec(old(self)@).1,
    {
        let (kind, mut payload) = match self.next_packet() {
            Err(e) => return Err(e),
            Ok(None) => return Ok(None),
            Ok(Some(packet)) => packet,
        };
        let message = if kind == HELLO && payload.len() == 4 {
            AgentMessage::Hello { width: get_be16(&payload, 0), height: get_be16(&payload, 2) }
        } else if kind == FRAME && payload.len() >= 8 {
            let width = get_be32(&payload, 0);
            let height = get_be32(&payload, 4);
            let pixels = payload.split_off(8);
            match Frame::new_rgb(width, height, pixels) {
                Ok(frame) => AgentMessage::Frame(frame),
                Err(error) => return Err(WireError::InvalidMessage(error.message())),
            }
        } else if kind == EXIT {
            AgentMessage::Exit(decode_text(payload)?)
        } else if kind == ERROR {
            AgentMessage::Error(decode_text(payload)?)
        } else {
            return Err(invalid_with_number("agent message type ", kind));
        };
        Ok(Some(message))
    }

    /// Decodes the next client message once its packet is complete.
    pub fn next_client(&mut self) -> (r: Result<Option<ClientMessage>, WireError>)
        ensures
            client_result_view(r) == next_client_spec(old(self)@).0,
            final(self)@ == next_client_spec(old(self)@).1,
    {
        let (kind, mut payload) = match self.next_packet() {
            Err(e) => return Err(e),
            Ok(None) => return Ok(None),
            Ok(Some(packet)) => packet,
        };
        let message = if kind == AUTH {
            ClientMessage::Authenticate(decode_text(payload)?)
        } else if kind == INPUT_TEXT {
            ClientMessage::Input(InputEvent::Text(decode_text(payload)?))
        } else if kind == INPUT_KEY && payload.len() >= 10 {
            let text_length = get_be32(&payload, 6);
            if payload.len() - 10 != text_length as usize {
                return Err(invalid_text("key text length"));
            }
            let code = get_be32(&payload, 0);
            let pressed = payload[4] != 0;
            let modifiers = payload[5];
            let text_bytes = payload.split_off(10);
            let text = decode_text(text_bytes)?;
            let text = if text.as_str().is_empty() {
                None
            } else {
                Some(text)
            };
            ClientMessage::Input(InputEvent::Key(KeyEvent { code, pressed, modifiers, text }))
        } else if kind == INPUT_MOUSE && payload.len() == 11 {
            let mouse_kind = match payload[8] {
                0 => MouseKind::Press,
                1 => MouseKind::Release,
                2 => MouseKind::Move,
                value => return Err(invalid_with_number("mouse kind ", value)),
            };
            let button = match payload[9] {
                0 => Some(MouseButton::Left),
                1 => Some(MouseButton::Middle),
                2 => Some(MouseButton::Right),
                3 => Some(MouseButton::WheelUp),
                4 => Some(MouseButton::WheelDown),
                255 => None,
                value => return Err(invalid_with_number("mouse button ", value)),
            };
            ClientMessage::Input(
                InputEvent::Mouse(
                    MouseEvent {
                        x: get_be32(&payload, 0),
                        y: get_be32(&payload, 4),
                        kind: mouse_kind,
                        button,
                        modifiers: payload[10],
                    },
                ),
            )
        } else if kind == INPUT_RESIZE && payload.len() == 4 {
            ClientMessage::Input(
                InputEvent::Resize { width: get_be16(&payload, 0), height: get_be16(&payload, 2) },
            )
        } else if kind == STOP && payload.len() == 0 {
            ClientMessage::Stop
        } else {
            return Err(invalid_with_number("client message type ", kind));
        };
        Ok(Some(message))
    }
}

impl Default for WireDecoder {
    /// An empty decoder.
    fn default() -> (decoder: Self)
        ensures
            decoder@ == Seq::<u8>::empty(),
    {
        WireDecoder::new()
    }
}

} // verus!
