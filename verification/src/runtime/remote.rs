//! The client side of a remote (Firecrab) session: the handshake with the
//! guest agent, and what each later agent message does to the session.
//! The socket reads and writes stand outside the library.
use vstd::prelude::*;

use crate::protocol::{io_error_text, wire_error_text, AgentMessage, WireError, WireErrorView};
use crate::renderer::{rgb_len, Frame, FrameView};
use crate::text::{decimal, owned, push_decimal, push_str};

verus! {

broadcast use vstd::string::group_string_axioms;

/// Largest side, in pixels, of a remote display.
pub const MAX_REMOTE_DIMENSION: u16 = 4096;

/// Why a remote session failed.
#[derive(Debug)]
pub enum FirecrabError {
    Endpoint(String),
    Connect(String),
    HandshakeTimeout,
    ResizeTimeout { width: u16, height: u16 },
    Agent(String),
    Protocol(String),
    Io(std::io::Error),
    Wire(WireError),
}

pub enum FirecrabErrorView {
    Endpoint(Seq<char>),
    Connect(Seq<char>),
    HandshakeTimeout,
    ResizeTimeout { width: u16, height: u16 },
    Agent(Seq<char>),
    Protocol(Seq<char>),
    Io,
    Wire(WireErrorView),
}

impl View for FirecrabError {
    type V = FirecrabErrorView;

    open spec fn view(&self) -> FirecrabErrorView {
        match self {
            FirecrabError::Endpoint(m) => FirecrabErrorView::Endpoint(m@),
            FirecrabError::Connect(m) => FirecrabErrorView::Connect(m@),
            FirecrabError::HandshakeTimeout => FirecrabErrorView::HandshakeTimeout,
            FirecrabError::ResizeTimeout { width, height } => FirecrabErrorView::ResizeTimeout {
                width: *width,
                height: *height,
            },
            FirecrabError::Agent(m) => FirecrabErrorView::Agent(m@),
            FirecrabError::Protocol(m) => FirecrabErrorView::Protocol(m@),
            FirecrabError::Io(_) => FirecrabErrorView::Io,
            FirecrabError::Wire(e) => FirecrabErrorView::Wire(e@),
        }
    }
}

impl From<WireError> for FirecrabError {
    fn from(error: WireError) -> (converted: Self) {
        FirecrabError::Wire(error)
    }
}

impl vstd::std_specs::convert::FromSpecImpl<WireError> for FirecrabError {
    open spec fn obeys_from_spec() -> bool {
        true
    }

    open spec fn from_spec(v: WireError) -> Self {
        FirecrabError::Wire(v)
    }
}

/// The message of a remote-session error; an I/O error's text comes from
/// the system.
pub open spec fn firecrab_error_text(error: FirecrabErrorView) -> Seq<char> {
    match error {
        FirecrabErrorView::Endpoint(m) => "invalid Firecrab endpoint: "@ + m,
        FirecrabErrorView::Connect(m) => "could not connect to GUI agent: "@ + m,
        FirecrabErrorView::HandshakeTimeout => "GUI agent handshake timed out"@,
        FirecrabErrorView::ResizeTimeout { width, height } => "GUI agent did not resize to "@
            + decimal(width as nat) + "x"@ + decimal(height as nat) + " in time"@,
        FirecrabErrorView::Agent(m) => "GUI agent failed: "@ + m,
        FirecrabErrorView::Protocol(m) => "GUI agent protocol error: "@ + m,
        FirecrabErrorView::Io => Seq::empty(),
        FirecrabErrorView::Wire(e) => wire_error_text(e),
    }
}

/// Whether the message of `error` is an I/O error's system text.
pub open spec fn firecrab_error_from_system(error: FirecrabErrorView) -> bool {
    error is Io || (error matches FirecrabErrorView::Wire(e) && e is Io)
}

impl FirecrabError {
    /// The human-readable message of this error.
    pub fn message(&self) -> (text: String)
        ensures
            !firecrab_error_from_system(self@) ==> text@ == firecrab_error_text(self@),
    {
        let mut text = String::new();
        match self {
            FirecrabError::Endpoint(m) => {
                push_str(&mut text, "invalid Firecrab endpoint: ");
                push_str(&mut text, m.as_str());
            },
            FirecrabError::Connect(m) => {
                push_str(&mut text, "could not connect to GUI agent: ");
                push_str(&mut text, m.as_str());
            },
            FirecrabError::HandshakeTimeout => {
                push_str(&mut text, "GUI agent handshake timed out");
            },
            FirecrabError::ResizeTimeout { width, height } => {
                push_str(&mut text, "GUI agent did not resize to ");
                push_decimal(&mut text, *width as u64);
                push_str(&mut text, "x");
                push_decimal(&mut text, *height as u64);
                push_str(&mut text, " in time");
            },
            FirecrabError::Agent(m) => {
                push_str(&mut text, "GUI agent failed: ");
                push_str(&mut text, m.as_str());
            },
            FirecrabError::Protocol(m) => {
                push_str(&mut text, "GUI agent protocol error: ");
                push_str(&mut text, m.as_str());
            },
            FirecrabError::Io(error) => {
                text = io_error_text(error);
            },
            FirecrabError::Wire(error) => {
                text = error.message();
            },
        }
        text
    }
}

fn size_text(prefix: &str, width: u16, height: u16) -> (text: String)
    ensures
        text@ == prefix@ + decimal(width as nat) + "x"@ + decimal(height as nat),
{
    let mut text = owned(prefix);
    push_decimal(&mut text, width as u64);
    push_str(&mut text, "x");
    push_decimal(&mut text, height as u64);
    text
}

/// A remote display must be 1 to 4096 pixels on each side.
pub fn check_remote_size(width: u16, height: u16) -> (r: Result<(), FirecrabError>)
    ensures
        (1 <= width <= MAX_REMOTE_DIMENSION && 1 <= height <= MAX_REMOTE_DIMENSION) <==> r is Ok,
        r matches Err(e) ==> e@ == FirecrabErrorView::Protocol(
            "display dimensions must be between 1 and 4096 pixels, got "@ + decimal(width as nat)
                + "x"@ + decimal(height as nat),
        ),
{
    if width == 0 || height == 0 || width > MAX_REMOTE_DIMENSION || height > MAX_REMOTE_DIMENSION {
        return Err(
            FirecrabError::Protocol(
                size_text("display dimensions must be between 1 and 4096 pixels, got ", width, height),
            ),
        );
    }
    Ok(())
}

/// A resize is refused before it is requested when a frame of that size
/// could not be held in memory.
pub fn check_resize(width: u16, height: u16) -> (r: Result<(), FirecrabError>)
    ensures
        rgb_len(width as u32, height as u32) <= usize::MAX <==> r is Ok,
        r matches Err(e) ==> e@ == FirecrabErrorView::Protocol("frame dimensions overflow"@),
{
    proof {
        assert(width as int * height as int <= 0xffff * 0xffffint) by (nonlinear_arith)
            requires
                width <= 0xffff,
                height <= 0xffff,
        ;
        assert(width as int * height as int >= 0) by (nonlinear_arith)
            requires
                width >= 0,
                height >= 0,
        ;
    }
    let pixels = width as u64 * height as u64;
    if pixels > usize::MAX as u64 / 3 {
        return Err(FirecrabError::Protocol(owned("frame dimensions overflow")));
    }
    Ok(())
}

/// What the client has learnt during the handshake.
pub struct Handshake {
    dimensions: Option<(u16, u16)>,
    initial_frame: Option<Frame>,
}

pub open spec fn frame_option_view(frame: Option<Frame>) -> Option<FrameView> {
    match frame {
        Some(f) => Some(f@),
        None => None,
    }
}

impl Handshake {
    pub closed spec fn dimensions_spec(&self) -> Option<(u16, u16)> {
        self.dimensions
    }

    pub closed spec fn frame_spec(&self) -> Option<FrameView> {
        frame_option_view(self.initial_frame)
    }

    /// Nothing learnt yet.
    pub fn new() -> (handshake: Self)
        ensures
            handshake.dimensions_spec() is None,
            handshake.frame_spec() is None,
    {
        Handshake { dimensions: None, initial_frame: None }
    }

    /// Both the display size and a first frame have arrived.
    pub fn complete(&self) -> (done: bool)
        ensures
            done == (self.dimensions_spec() is Some && self.frame_spec() is Some),
    {
        self.dimensions.is_some() && self.initial_frame.is_some()
    }

    /// Takes in one agent message: a non-empty hello gives the size, a frame
    /// the first frame; an error or exit ends the handshake with the agent's
    /// message, and an empty hello with a protocol error.
    pub fn receive(&mut self, message: AgentMessage) -> (r: Result<(), FirecrabError>)
        ensures
            match message {
                AgentMessage::Hello { width, height } => if width > 0 && height > 0 {
                    r is Ok && final(self).dimensions_spec() == Some((width, height))
                        && final(self).frame_spec() == old(self).frame_spec()
                } else {
                    r matches Err(e) && e@ == FirecrabErrorView::Protocol("zero-sized display"@)
                },
                AgentMessage::Frame(frame) => r is Ok && final(self).frame_spec() == Some(frame@)
                    && final(self).dimensions_spec() == old(self).dimensions_spec(),
                AgentMessage::Error(m) => r matches Err(e) && e@ == FirecrabErrorView::Agent(m@),
                AgentMessage::Exit(m) => r matches Err(e) && e@ == FirecrabErrorView::Agent(m@),
            },
    {
        match message {
            AgentMessage::Hello { width, height } => {
                if width > 0 && height > 0 {
                    self.dimensions = Some((width, height));
                    Ok(())
                } else {
                    Err(FirecrabError::Protocol(owned("zero-sized display")))
                }
            },
            AgentMessage::Frame(frame) => {
                self.initial_frame = Some(frame);
                Ok(())
            },
            AgentMessage::Error(m) => Err(FirecrabError::Agent(m)),
            AgentMessage::Exit(m) => Err(FirecrabError::Agent(m)),
        }
    }

    /// Ends the handshake for a request of `width` x `height`: the agent must
    /// have opened exactly that size and sent a first frame of it.
    pub fn finish(self, width: u16, height: u16) -> (r: Result<Frame, FirecrabError>)
        ensures
            match (self.dimensions_spec(), self.frame_spec()) {
                (None, _) => r matches Err(e) && e@ == FirecrabErrorView::HandshakeTimeout,
                (Some((w, h)), frame) => if (w, h) != (width, height) {
                    r matches Err(e) && e@ == FirecrabErrorView::Protocol(
                        "agent opened "@ + decimal(w as nat) + "x"@ + decimal(h as nat)
                            + " instead of requested "@ + decimal(width as nat) + "x"@ + decimal(
                            height as nat,
                        ),
                    )
                } else {
                    match frame {
                        None => r matches Err(e) && e@ == FirecrabErrorView::HandshakeTimeout,
                        Some(f) => if f.width != width as u32 || f.height != height as u32 {
                            r matches Err(e) && e@ == FirecrabErrorView::Protocol(
                                "initial frame dimensions do not match hello"@,
                            )
                        } else {
                            r matches Ok(frame) && frame@ == f
                        },
                    }
                },
            },
    {
        let (w, h) = match self.dimensions {
            None => {
                return Err(FirecrabError::HandshakeTimeout);
            },
            Some(dimensions) => dimensions,
        };
        if w != width || h != height {
            let mut text = size_text("agent opened ", w, h);
            push_str(&mut text, " instead of requested ");
            push_decimal(&mut text, width as u64);
            push_str(&mut text, "x");
            push_decimal(&mut text, height as u64);
            return Err(FirecrabError::Protocol(text));
        }
        let frame = match self.initial_frame {
            None => {
                return Err(FirecrabError::HandshakeTimeout);
            },
            Some(frame) => frame,
        };
        if frame.width() != width as u32 || frame.height() != height as u32 {
            return Err(
                FirecrabError::Protocol(owned("initial frame dimensions do not match hello")),
            );
        }
        Ok(frame)
    }
}

/// The state of a connected remote session: the newest frame of the
/// current size, whether it was taken yet, and whether the agent still runs.
pub struct RemoteState {
    latest: Frame,
    pending: bool,
    running: bool,
    termination: Option<String>,
    width: u16,
    height: u16,
}

pub open spec fn text_option_view(text: Option<String>) -> Option<Seq<char>> {
    match text {
        Some(t) => Some(t@),
        None => None,
    }
}

impl RemoteState {
    pub closed spec fn latest_spec(&self) -> FrameView {
        self.latest@
    }

    pub closed spec fn pending_spec(&self) -> bool {
        self.pending
    }

    pub closed spec fn running_spec(&self) -> bool {
        self.running
    }

    pub closed spec fn termination_spec(&self) -> Option<Seq<char>> {
        text_option_view(self.termination)
    }

    pub closed spec fn size_spec(&self) -> (u16, u16) {
        (self.width, self.height)
    }

    /// A session that has just shaken hands: the first frame is pending.
    pub fn new(latest: Frame, width: u16, height: u16) -> (state: Self)
        ensures
            state.latest_spec() == latest@,
            state.pending_spec(),
            state.running_spec(),
            state.termination_spec() is None,
            state.size_spec() == (width, height),
    {
        RemoteState { latest, pending: true, running: true, termination: None, width, height }
    }

    /// Takes in one agent message: a frame of the current size becomes the
    /// pending frame (others are dropped); an exit records its reason and
    /// stops the session; an error does the same and fails; a second hello
    /// is a protocol error.
    pub fn receive(&mut self, message: AgentMessage) -> (r: Result<(), FirecrabError>)
        ensures
            final(self).size_spec() == old(self).size_spec(),
            match message {
                AgentMessage::Frame(frame) => r is Ok && final(self).termination_spec() == old(
                    self,
                ).termination_spec() && final(self).running_spec() == old(self).running_spec()
                    && if frame@.width == old(self).size_spec().0 as u32 && frame@.height == old(
                    self,
                ).size_spec().1 as u32 {
                    final(self).latest_spec() == frame@ && final(self).pending_spec()
                } else {
                    final(self).latest_spec() == old(self).latest_spec() && final(self).pending_spec()
                        == old(self).pending_spec()
                },
                AgentMessage::Exit(m) => r is Ok && final(self).termination_spec() == Some(m@)
                    && !final(self).running_spec() && final(self).pending_spec() == old(
                    self,
                ).pending_spec() && final(self).latest_spec() == old(self).latest_spec(),
                AgentMessage::Error(m) => {
                    &&& r matches Err(e) && e@ == FirecrabErrorView::Agent(m@)
                    &&& final(self).termination_spec() == Some(m@)
                    &&& !final(self).running_spec()
                    &&& final(self).pending_spec() == old(self).pending_spec()
                    &&& final(self).latest_spec() == old(self).latest_spec()
                },
                AgentMessage::Hello { .. } => {
                    &&& r matches Err(e) && e@ == FirecrabErrorView::Protocol("duplicate hello"@)
                    &&& final(self).termination_spec() == old(self).termination_spec()
                    &&& final(self).running_spec() == old(self).running_spec()
                    &&& final(self).pending_spec() == old(self).pending_spec()
                    &&& final(self).latest_spec() == old(self).latest_spec()
                },
            },
    {
        match message {
            AgentMessage::Frame(frame) => {
                if frame.width() == self.width as u32 && frame.height() == self.height as u32 {
                    self.latest = frame;
                    self.pending = true;
                }
                Ok(())
            },
            AgentMessage::Exit(m) => {
                self.termination = Some(m);
                self.running = false;
                Ok(())
            },
            AgentMessage::Error(m) => {
                self.termination = Some(owned(m.as_str()));
                self.running = false;
                Err(FirecrabError::Agent(m))
            },
            AgentMessage::Hello { .. } => Err(FirecrabError::Protocol(owned("duplicate hello"))),
        }
    }

    /// The agent closed the connection: the session stops, and gives a
    /// reason of its own when the agent gave none.
    pub fn end_of_stream(&mut self)
        ensures
            !final(self).running_spec(),
            old(self).termination_spec() is Some ==> final(self).termination_spec() == old(
                self,
            ).termination_spec(),
            old(self).termination_spec() is None ==> final(self).termination_spec() == Some(
                "agent transport closed without an exit status"@,
            ),
            final(self).latest_spec() == old(self).latest_spec(),
            final(self).pending_spec() == old(self).pending_spec(),
            final(self).size_spec() == old(self).size_spec(),
    {
        self.running = false;
        if self.termination.is_none() {
            self.termination = Some(owned("agent transport closed without an exit status"));
        }
    }

    /// The newest frame, which is then no longer pending.
    pub fn take_frame(&mut self) -> (frame: Frame)
        ensures
            frame@ == old(self).latest_spec(),
            !final(self).pending_spec(),
            final(self).latest_spec() == old(self).latest_spec(),
            final(self).running_spec() == old(self).running_spec(),
            final(self).termination_spec() == old(self).termination_spec(),
            final(self).size_spec() == old(self).size_spec(),
    {
        self.pending = false;
        self.latest.clone()
    }

    /// Whether a frame arrived that was not taken yet.
    pub fn pending(&self) -> (pending: bool)
        ensures
            pending == self.pending_spec(),
    {
        self.pending
    }

    /// Whether the agent still runs.
    pub fn running(&self) -> (running: bool)
        ensures
            running == self.running_spec(),
    {
        self.running
    }

    /// Why the agent stopped, once it has.
    pub fn termination(&self) -> (reason: Option<&String>)
        ensures
            match reason {
                Some(text) => self.termination_spec() == Some(text@),
                None => self.termination_spec() is None,
            },
    {
        match &self.termination {
            Some(text) => Some(text),
            None => None,
        }
    }

    /// The size of the remote display.
    pub fn display_size(&self) -> (size: (u16, u16))
        ensures
            size == self.size_spec(),
    {
        (self.width, self.height)
    }

    /// A resize to `width` x `height` was requested: from now on only frames
    /// of that size count, and none is pending.
    pub fn begin_resize(&mut self, width: u16, height: u16)
        ensures
            final(self).size_spec() == (width, height),
            !final(self).pending_spec(),
            final(self).running_spec() == old(self).running_spec(),
            final(self).termination_spec() == old(self).termination_spec(),
            final(self).latest_spec() == old(self).latest_spec(),
    {
        self.width = width;
        self.height = height;
        self.pending = false;
    }

    /// Where a requested resize stands: done once a frame of the new size
    /// is pending; failed when the agent stopped first; otherwise unknown.
    pub fn resize_status(&self) -> (status: Option<Result<(), FirecrabError>>)
        ensures
            self.pending_spec() ==> status matches Some(Ok(())),
            !self.pending_spec() && !self.running_spec() ==> (status matches Some(Err(e)) && e@
                == FirecrabErrorView::Agent(
                "agent exited while resizing: "@ + match self.termination_spec() {
                    Some(reason) => reason,
                    None => "no termination reason was provided"@,
                },
            )),
            !self.pending_spec() && self.running_spec() ==> status is None,
    {
        if self.pending {
            return Some(Ok(()));
        }
        if !self.running {
            let mut text = owned("agent exited while resizing: ");
            match &self.termination {
                Some(reason) => push_str(&mut text, reason.as_str()),
                None => push_str(&mut text, "no termination reason was provided"),
            }
            return Some(Err(FirecrabError::Agent(text)));
        }
        None
    }
}

} // verus!
