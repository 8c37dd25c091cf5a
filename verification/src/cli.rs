//! The command line: the commands and their options, the session table,
//! and the counters that `--stats` reports.
use vstd::prelude::*;

use crate::protocol::{DEFAULT_AGENT_PORT, mapped_coordinate, InputEvent, InputEventView, MouseEvent, ViewportMapping};
use crate::terminal::{DemoOptions, RenderOutcome, TerminalAction};
use crate::text::{
    chars_of, decimal, is_control, lemma_parse_decimal, owned, parse_unsigned, parse_unsigned_str,
    push_char,
    push_decimal, push_str, str_eq, texts, option_text,
};

verus! {

broadcast use vstd::string::group_string_axioms;

/// A table cell that cannot break the table: control characters become spaces.
pub open spec fn clean_cell(value: Seq<char>) -> Seq<char> {
    value.map_values(|c: char| if is_control(c) { ' ' } else { c })
}

/// Replaces the control characters of `value` by spaces.
pub fn clean_table_cell(value: &str) -> (cell: String)
    ensures
        cell@ == clean_cell(value@),
{
    let chars = chars_of(value);
    let mut cell = String::new();
    for i in 0..chars.len()
        invariant
            chars@ == value@,
            cell@ == clean_cell(chars@.take(i as int)),
    {
        let c = chars[i];
        let shown = if crate::text::char_is_control(c) {
            ' '
        } else {
            c
        };
        push_char(&mut cell, shown);
        assert(clean_cell(chars@.take(i + 1)) =~= clean_cell(chars@.take(i as int)).push(shown));
    }
    assert(chars@.take(chars@.len() as int) =~= chars@);
    cell
}

pub open spec fn starts_with(s: Seq<char>, prefix: Seq<char>) -> bool {
    s.len() >= prefix.len() && s.take(prefix.len() as int) == prefix
}

/// An application that is not a path but names a registry, a tag or a
/// digest (`ghcr.io/example/gui:1`) is an OCI image.
pub open spec fn oci_reference(application: Seq<char>) -> bool {
    !(starts_with(application, "/"@) || starts_with(application, "./"@) || starts_with(
        application,
        "../"@,
    )) && (application.contains('/') || application.contains(':') || application.contains('@'))
}

/// Whether `application` reads as an OCI image reference.
pub fn looks_like_oci_reference(application: &str) -> (oci: bool)
    ensures
        oci == oci_reference(application@),
{
    proof {
        reveal_strlit("/");
        reveal_strlit("./");
        reveal_strlit("../");
    }
    let chars = chars_of(application);
    let n = chars.len();
    let rooted = n >= 1 && chars[0] == '/';
    let relative = n >= 2 && chars[0] == '.' && chars[1] == '/';
    let parent = n >= 3 && chars[0] == '.' && chars[1] == '.' && chars[2] == '/';
    assert(rooted == starts_with(chars@, "/"@)) by {
        reveal_strlit("/");
        assert("/"@ =~= seq!['/']);
        if n >= 1 {
            assert(chars@.take(1) =~= seq![chars@[0]]);
            if chars@[0] != '/' {
                assert(chars@.take(1)[0] != "/"@[0]);
            }
        }
    }
    assert(relative == starts_with(chars@, "./"@)) by {
        reveal_strlit("./");
        assert("./"@ =~= seq!['.', '/']);
        if n >= 2 {
            assert(chars@.take(2) =~= seq![chars@[0], chars@[1]]);
        }
    }
    assert(parent == starts_with(chars@, "../"@)) by {
        reveal_strlit("../");
        assert("../"@ =~= seq!['.', '.', '/']);
        if n >= 3 {
            assert(chars@.take(3) =~= seq![chars@[0], chars@[1], chars@[2]]);
        }
    }
    if rooted || relative || parent {
        return false;
    }
    let mut found = false;
    let mut i: usize = 0;
    while i < n
        invariant
            i <= n == chars@.len(),
            chars@ == application@,
            found ==> (chars@.contains('/') || chars@.contains(':') || chars@.contains('@')),
            !found ==> forall|k: int|
                0 <= k < i ==> chars@[k] != '/' && chars@[k] != ':' && chars@[k] != '@',
        decreases n - i,
    {
        let c = chars[i];
        if c == '/' || c == ':' || c == '@' {
            assert(chars@[i as int] == c);
            found = true;
        }
        i = i + 1;
    }
    found
}

/// The runtime under which a session is registered: `docker` is `oci`.
pub fn session_runtime_name(runtime: &str) -> (name: String)
    ensures
        runtime@ == "docker"@ ==> name@ == "oci"@,
        runtime@ != "docker"@ ==> name@ == runtime@,
{
    if crate::text::str_eq(runtime, "docker") {
        owned("oci")
    } else {
        owned(runtime)
    }
}

/// `value` padded on the right with spaces to `width` characters, as
/// `{:<width}` formats it.
pub open spec fn pad_right(value: Seq<char>, width: nat) -> Seq<char> {
    if value.len() >= width {
        value
    } else {
        value + Seq::new((width - value.len()) as nat, |i: int| ' ')
    }
}

fn push_padded(text: &mut String, value: &str, width: usize)
    ensures
        final(text)@ == old(text)@ + pad_right(value@, width as nat),
{
    let chars = chars_of(value);
    push_str(text, value);
    let mut n = chars.len();
    let ghost start = text@;
    while n < width
        invariant
            chars@ == value@,
            chars@.len() <= n <= width || (n == chars@.len() && n >= width),
            text@ == start + Seq::new((n - chars@.len()) as nat, |i: int| ' '),
        decreases width - n,
    {
        push_char(text, ' ');
        n = n + 1;
        assert(Seq::new((n - chars@.len()) as nat, |i: int| ' ') =~= Seq::new(
            (n - 1 - chars@.len()) as nat,
            |i: int| ' ',
        ).push(' '));
    }
    if chars.len() >= width {
        assert(Seq::new(0, |i: int| ' ') =~= Seq::<char>::empty());
    }
}

/// The header of the session table.
pub open spec fn table_header() -> Seq<char> {
    pad_right("ID"@, 18) + " "@ + pad_right("RUNTIME"@, 10) + " "@ + pad_right("PID"@, 8)
        + " APP"@
}

/// One row of the session table.
pub open spec fn table_row(id: Seq<char>, runtime: Seq<char>, pid: u32, application: Seq<char>) -> Seq<
    char,
> {
    pad_right(id, 18) + " "@ + pad_right(clean_cell(runtime), 10) + " "@ + pad_right(
        decimal(pid as nat),
        8,
    ) + " "@ + clean_cell(application)
}

/// The header line of `ps`.
pub fn session_table_header() -> (line: String)
    ensures
        line@ == table_header(),
{
    let mut line = String::new();
    push_padded(&mut line, "ID", 18);
    push_str(&mut line, " ");
    push_padded(&mut line, "RUNTIME", 10);
    push_str(&mut line, " ");
    push_padded(&mut line, "PID", 8);
    push_str(&mut line, " APP");
    line
}

/// The line of `ps` for one session.
pub fn session_table_row(id: &str, runtime: &str, pid: u32, application: &str) -> (line: String)
    ensures
        line@ == table_row(id@, runtime@, pid, application@),
{
    let mut line = String::new();
    push_padded(&mut line, id, 18);
    push_str(&mut line, " ");
    let runtime_cell = clean_table_cell(runtime);
    push_padded(&mut line, runtime_cell.as_str(), 10);
    push_str(&mut line, " ");
    let mut pid_text = String::new();
    push_decimal(&mut pid_text, pid as u64);
    push_padded(&mut line, pid_text.as_str(), 8);
    push_str(&mut line, " ");
    let application_cell = clean_table_cell(application);
    push_str(&mut line, application_cell.as_str());
    line
}

/// An input event in frame pixels: a mouse event's cell becomes the pixel
/// at its top-left corner; other events are unchanged.
pub open spec fn mapped_input(input: InputEventView, mapping: ViewportMapping) -> InputEventView {
    match input {
        InputEventView::Mouse(mouse) => InputEventView::Mouse(
            MouseEvent {
                x: mapped_coordinate(mouse.x as u16, mapping.columns(), mapping.width()) as u32,
                y: mapped_coordinate(mouse.y as u16, mapping.rows(), mapping.height()) as u32,
                ..mouse
            },
        ),
        _ => input,
    }
}

/// A terminal input event in frame pixels: a mouse event's cell becomes
/// the pixel at its top-left corner; other events are unchanged.
pub fn map_terminal_input(input: InputEvent, mapping: ViewportMapping) -> (mapped: InputEvent)
    ensures
        mapped@ == mapped_input(input@, mapping),
{
    match input {
        InputEvent::Mouse(mouse) => {
            let (x, y) = mapping.map_cell(mouse.x as u16, mouse.y as u16);
            InputEvent::Mouse(
                MouseEvent { x, y, button: mouse.button, kind: mouse.kind, modifiers: mouse.modifiers },
            )
        },
        other => other,
    }
}

/// What happens to the terminal session loop: a terminal event, or the
/// frame deadline passing (with whether the session reports a new frame).
pub enum LoopEvent {
    Terminal(TerminalAction),
    Tick { frame_pending: bool },
}

/// What the session loop does next.
#[derive(Debug, Clone, PartialEq, Eq)]
pub enum LoopStep {
    /// Inject this input, already in frame pixels, into the session.
    Inject(InputEvent),
    /// Resize the renderer to this many cells and start a new frame period now.
    Resize { columns: u16, rows: u16 },
    /// Leave the loop.
    Quit,
    /// Capture a frame and render it.
    Render,
    /// Nothing changed: neither capture nor write; count the skip.
    Skip,
}

/// The state of the session loop.
pub struct SessionLoopView {
    pub mapping: ViewportMapping,
    pub columns: u16,
    pub rows: u16,
    pub force_capture: bool,
}

/// The rendering policy of a terminal session: map input to the display,
/// follow terminal resizes, and capture only when a frame is new or a full
/// resync is owed (at the start and after a resize).
pub struct SessionLoop {
    mapping: ViewportMapping,
    columns: u16,
    rows: u16,
    force_capture: bool,
}

impl View for SessionLoop {
    type V = SessionLoopView;

    closed spec fn view(&self) -> SessionLoopView {
        SessionLoopView {
            mapping: self.mapping,
            columns: self.columns,
            rows: self.rows,
            force_capture: self.force_capture,
        }
    }
}

/// A terminal size of zero cells counts as one.
pub open spec fn at_least_one_cell(n: u16) -> u16 {
    if n == 0 {
        1
    } else {
        n
    }
}

impl SessionLoop {
    /// The loop for a terminal of `columns` x `rows` cells (each at least
    /// one) showing a display of `width` x `height` pixels; `None` when the
    /// display is empty. The first tick always renders.
    pub fn new(columns: u16, rows: u16, width: u16, height: u16) -> (r: Option<Self>)
        ensures
            (width == 0 || height == 0) <==> r is None,
            r matches Some(l) ==> l@.columns == at_least_one_cell(columns) && l@.rows
                == at_least_one_cell(rows) && l@.force_capture && l@.mapping.columns()
                == l@.columns && l@.mapping.rows() == l@.rows && l@.mapping.width() == width
                && l@.mapping.height() == height,
    {
        let columns = if columns == 0 {
            1
        } else {
            columns
        };
        let rows = if rows == 0 {
            1
        } else {
            rows
        };
        match ViewportMapping::new(columns, rows, width as u32, height as u32) {
            Some(mapping) => Some(SessionLoop { mapping, columns, rows, force_capture: true }),
            None => None,
        }
    }

    /// The current mapping from terminal cells to display pixels.
    pub fn mapping(&self) -> (m: ViewportMapping)
        ensures
            m == self@.mapping,
    {
        self.mapping
    }

    /// The terminal size in cells.
    pub fn size(&self) -> (size: (u16, u16))
        ensures
            size == (self@.columns, self@.rows),
    {
        (self.columns, self.rows)
    }

    /// The next step for `event`.
    pub fn step(&mut self, event: LoopEvent) -> (step: LoopStep)
        ensures
            match event {
                LoopEvent::Terminal(TerminalAction::Quit) => step == LoopStep::Quit && final(self)@
                    == old(self)@,
                LoopEvent::Terminal(TerminalAction::Input(input)) => (step matches LoopStep::Inject(
                    mapped,
                ) && mapped@ == mapped_input(input@, old(self)@.mapping)) && final(self)@ == old(
                    self,
                )@,
                LoopEvent::Terminal(TerminalAction::Resize { columns, rows }) => {
                    &&& final(self)@.columns == at_least_one_cell(columns)
                    &&& final(self)@.rows == at_least_one_cell(rows)
                    &&& final(self)@.force_capture
                    &&& final(self)@.mapping.columns() == final(self)@.columns
                    &&& final(self)@.mapping.rows() == final(self)@.rows
                    &&& final(self)@.mapping.width() == old(self)@.mapping.width()
                    &&& final(self)@.mapping.height() == old(self)@.mapping.height()
                    &&& step == LoopStep::Resize {
                        columns: final(self)@.columns,
                        rows: final(self)@.rows,
                    }
                },
                LoopEvent::Tick { frame_pending } => if old(self)@.force_capture || frame_pending {
                    step == LoopStep::Render && final(self)@ == (SessionLoopView {
                        force_capture: false,
                        ..old(self)@
                    })
                } else {
                    step == LoopStep::Skip && final(self)@ == old(self)@
                },
            },
    {
        match event {
            LoopEvent::Terminal(TerminalAction::Quit) => LoopStep::Quit,
            LoopEvent::Terminal(TerminalAction::Input(input)) => {
                LoopStep::Inject(map_terminal_input(input, self.mapping))
            },
            LoopEvent::Terminal(TerminalAction::Resize { columns, rows }) => {
                let columns = if columns == 0 {
                    1
                } else {
                    columns
                };
                let rows = if rows == 0 {
                    1
                } else {
                    rows
                };
                let (width, height) = self.mapping.frame_size();
                match ViewportMapping::new(columns, rows, width, height) {
                    Some(mapping) => {
                        self.mapping = mapping;
                        self.columns = columns;
                        self.rows = rows;
                        self.force_capture = true;
                    },
                    None => {},
                }
                LoopStep::Resize { columns: self.columns, rows: self.rows }
            },
            LoopEvent::Tick { frame_pending } => {
                if self.force_capture || frame_pending {
                    self.force_capture = false;
                    LoopStep::Render
                } else {
                    LoopStep::Skip
                }
            },
        }
    }
}

/// What the render loop did, for `--stats`.
#[derive(Debug, Clone, Copy, PartialEq, Eq, Default)]
pub struct RenderStats {
    pub polls: u64,
    pub captured: u64,
    pub full: u64,
    pub tile_frames: u64,
    pub tiles: u64,
    pub unchanged: u64,
    pub skipped: u64,
}

impl RenderStats {
    /// All counters at zero.
    pub fn new() -> (stats: Self)
        ensures
            stats == (RenderStats {
                polls: 0,
                captured: 0,
                full: 0,
                tile_frames: 0,
                tiles: 0,
                unchanged: 0,
                skipped: 0,
            }),
    {
        RenderStats {
            polls: 0,
            captured: 0,
            full: 0,
            tile_frames: 0,
            tiles: 0,
            unchanged: 0,
            skipped: 0,
        }
    }

    /// Counts a poll of the session for a frame.
    pub fn poll(&mut self)
        requires
            old(self).polls < u64::MAX,
        ensures
            *final(self) == (RenderStats { polls: (old(self).polls + 1) as u64, ..*old(self) }),
    {
        self.polls = self.polls + 1;
    }

    /// Counts a poll that found no new frame.
    pub fn skip(&mut self)
        requires
            old(self).skipped < u64::MAX,
        ensures
            *final(self) == (RenderStats { skipped: (old(self).skipped + 1) as u64, ..*old(self) }),
    {
        self.skipped = self.skipped + 1;
    }

    /// Counts a captured frame and what rendering it did.
    pub fn observe(&mut self, outcome: RenderOutcome)
        requires
            old(self).captured < u64::MAX,
            outcome is Unchanged ==> old(self).unchanged < u64::MAX,
            outcome is Full ==> old(self).full < u64::MAX,
            outcome matches RenderOutcome::Tiles(count) ==> old(self).tile_frames < u64::MAX && old(
                self,
            ).tiles + count <= u64::MAX,
        ensures
            final(self).captured == old(self).captured + 1,
            final(self).polls == old(self).polls,
            final(self).skipped == old(self).skipped,
            match outcome {
                RenderOutcome::Unchanged => final(self).unchanged == old(self).unchanged + 1
                    && final(self).full == old(self).full && final(self).tile_frames == old(
                    self,
                ).tile_frames && final(self).tiles == old(self).tiles,
                RenderOutcome::Full => final(self).full == old(self).full + 1 && final(self).unchanged
                    == old(self).unchanged && final(self).tile_frames == old(self).tile_frames
                    && final(self).tiles == old(self).tiles,
                RenderOutcome::Tiles(count) => final(self).tile_frames == old(self).tile_frames + 1
                    && final(self).tiles == old(self).tiles + count && final(self).unchanged == old(
                    self,
                ).unchanged && final(self).full == old(self).full,
            },
    {
        self.captured = self.captured + 1;
        match outcome {
            RenderOutcome::Unchanged => self.unchanged = self.unchanged + 1,
            RenderOutcome::Full => self.full = self.full + 1,
            RenderOutcome::Tiles(count) => {
                self.tile_frames = self.tile_frames + 1;
                self.tiles = self.tiles + count as u64;
            },
        }
    }

    /// The `--stats` line.
    pub fn report(&self) -> (text: String)
        ensures
            text@ == "micro-gui render stats: polls="@ + decimal(self.polls as nat) + ", captured="@
                + decimal(self.captured as nat) + ", full="@ + decimal(self.full as nat)
                + ", tile_frames="@ + decimal(self.tile_frames as nat) + ", tiles="@ + decimal(
                self.tiles as nat,
            ) + ", unchanged="@ + decimal(self.unchanged as nat) + ", skipped="@ + decimal(
                self.skipped as nat,
            ),
    {
        let mut text = owned("micro-gui render stats: polls=");
        push_decimal(&mut text, self.polls);
        push_str(&mut text, ", captured=");
        push_decimal(&mut text, self.captured);
        push_str(&mut text, ", full=");
        push_decimal(&mut text, self.full);
        push_str(&mut text, ", tile_frames=");
        push_decimal(&mut text, self.tile_frames);
        push_str(&mut text, ", tiles=");
        push_decimal(&mut text, self.tiles);
        push_str(&mut text, ", unchanged=");
        push_decimal(&mut text, self.unchanged);
        push_str(&mut text, ", skipped=");
        push_decimal(&mut text, self.skipped);
        text
    }
}

/// `value` between single quotes.
pub open spec fn in_quotes(value: Seq<char>) -> Seq<char> {
    seq!['\''] + value + seq!['\'']
}

fn quote_between(before: &str, value: &str, after: &str) -> (text: String)
    ensures
        text@ == before@ + in_quotes(value@) + after@,
{
    let mut text = owned(before);
    push_char(&mut text, '\'');
    push_str(&mut text, value);
    push_char(&mut text, '\'');
    push_str(&mut text, after);
    text
}

fn suffixed(value: &str, rest: &str) -> (text: String)
    ensures
        text@ == value@ + rest@,
{
    let mut text = owned(value);
    push_str(&mut text, rest);
    text
}

/// The demo options given by `args[i..]` on top of `options`.
pub open spec fn demo_flags(args: Seq<Seq<char>>, i: int, options: DemoOptions) -> Result<
    DemoOptions,
    Seq<char>,
>
    decreases args.len() - i,
{
    if i < 0 || i >= args.len() {
        Ok(options)
    } else if args[i] == "--width"@ || args[i] == "--height"@ {
        if i + 1 >= args.len() {
            Err(args[i] + " requires a value"@)
        } else {
            match parse_unsigned(args[i + 1], u32::MAX as nat) {
                None => Err(in_quotes(args[i + 1]) + " is not a valid pixel size"@),
                Some(v) => demo_flags(
                    args,
                    i + 2,
                    if args[i] == "--width"@ {
                        DemoOptions { width: v as u32, height: options.height }
                    } else {
                        DemoOptions { width: options.width, height: v as u32 }
                    },
                ),
            }
        }
    } else {
        Err("unknown demo option "@ + in_quotes(args[i]))
    }
}

/// `demo`: `--width` and `--height` over the default 320 x 180, each
/// followed by a pixel count; the result must pass `DemoOptions::validate`.
pub open spec fn demo_options_at(args: Seq<Seq<char>>, start: int) -> Result<DemoOptions, Seq<char>> {
    match demo_flags(args, start, DemoOptions { width: 320, height: 180 }) {
        Err(m) => Err(m),
        Ok(o) => if o.width == 0 || o.height == 0 {
            Err("demo dimensions must be greater than zero"@)
        } else if o.width > 4096 || o.height > 4096 {
            Err("demo dimensions must not exceed 4096 pixels"@)
        } else {
            Ok(o)
        },
    }
}

fn demo_options_from(args: &[String], start: usize) -> (r: Result<DemoOptions, String>)
    requires
        start <= args@.len(),
    ensures
        match r {
            Ok(o) => demo_options_at(texts(args@), start as int) == Ok::<DemoOptions, Seq<char>>(o),
            Err(m) => demo_options_at(texts(args@), start as int) == Err::<DemoOptions, Seq<char>>(
                m@,
            ),
        },
{
    let ghost all = texts(args@);
    let mut options = DemoOptions::default();
    let mut index = start;
    while index < args.len()
        invariant
            start <= index <= args@.len(),
            all == texts(args@),
            demo_flags(all, start as int, DemoOptions { width: 320, height: 180 }) == demo_flags(
                all,
                index as int,
                options,
            ),
        decreases args.len() - index,
    {
        let flag = args[index].as_str();
        assert(all[index as int] == flag@);
        let is_width = str_eq(flag, "--width");
        let is_height = str_eq(flag, "--height");
        if !is_width && !is_height {
            proof {
                reveal_strlit("");
                assert("unknown demo option "@ + in_quotes(flag@) + ""@ =~= "unknown demo option "@
                    + in_quotes(flag@));
            }
            return Err(quote_between("unknown demo option ", flag, ""));
        }
        if index + 1 >= args.len() {
            return Err(suffixed(flag, " requires a value"));
        }
        let value = args[index + 1].as_str();
        assert(all[index + 1] == value@);
        let parsed = match parse_unsigned_str(value, 0xffff_ffff) {
            Some(v) => v as u32,
            None => {
                proof {
                    reveal_strlit("");
                    assert(""@ + in_quotes(value@) + " is not a valid pixel size"@ =~= in_quotes(
                        value@,
                    ) + " is not a valid pixel size"@);
                }
                return Err(quote_between("", value, " is not a valid pixel size"));
            },
        };
        if is_width {
            options = DemoOptions { width: parsed, height: options.height };
        } else {
            options = DemoOptions { width: options.width, height: parsed };
        }
        index = index + 2;
    }
    match options.validate() {
        Ok(()) => Ok(options),
        Err(message) => Err(message),
    }
}

/// Reads the options of `demo`.
pub fn parse_demo_options(args: &[String]) -> (r: Result<DemoOptions, String>)
    ensures
        match r {
            Ok(o) => demo_options_at(texts(args@), 0) == Ok::<DemoOptions, Seq<char>>(o),
            Err(m) => demo_options_at(texts(args@), 0) == Err::<DemoOptions, Seq<char>>(m@),
        },
{
    demo_options_from(args, 0)
}

/// Options of `run`.
#[derive(Debug, PartialEq, Eq)]
pub struct RunOptions {
    pub application: String,
    pub application_arguments: Vec<String>,
    pub runtime: String,
    pub fps: u16,
    pub stats: bool,
    pub firecrab_endpoint: Option<String>,
}

pub struct RunOptionsView {
    pub application: Seq<char>,
    pub application_arguments: Seq<Seq<char>>,
    pub runtime: Seq<char>,
    pub fps: u16,
    pub stats: bool,
    pub firecrab_endpoint: Option<Seq<char>>,
}

impl View for RunOptions {
    type V = RunOptionsView;

    open spec fn view(&self) -> RunOptionsView {
        RunOptionsView {
            application: self.application@,
            application_arguments: texts(self.application_arguments@),
            runtime: self.runtime@,
            fps: self.fps,
            stats: self.stats,
            firecrab_endpoint: option_text(self.firecrab_endpoint),
        }
    }
}

/// What the flags of `run` have set so far.
pub struct RunFlags {
    pub runtime: Seq<char>,
    pub explicit: bool,
    pub fps: u16,
    pub stats: bool,
    pub arguments: Seq<Seq<char>>,
    pub endpoint: Option<Seq<char>>,
}

/// The runtimes that `--runtime` accepts; `docker` is another name for `oci`.
pub open spec fn supported_runtime(runtime: Seq<char>) -> bool {
    runtime == "native"@ || runtime == "oci"@ || runtime == "docker"@ || runtime == "firecrab"@
}

/// The flags `args[i..]` of `run` on top of `flags`; everything after `--`
/// belongs to the application.
pub open spec fn run_flags(args: Seq<Seq<char>>, i: int, flags: RunFlags) -> Result<RunFlags, Seq<char>>
    decreases args.len() - i,
{
    if i < 0 || i >= args.len() {
        Ok(flags)
    } else if args[i] == "--"@ {
        Ok(RunFlags { arguments: args.skip(i + 1), ..flags })
    } else if args[i] == "--runtime"@ {
        if i + 1 >= args.len() {
            Err("--runtime requires a value"@)
        } else if !supported_runtime(args[i + 1]) {
            Err("unsupported runtime "@ + in_quotes(args[i + 1]))
        } else {
            run_flags(args, i + 2, RunFlags { runtime: args[i + 1], explicit: true, ..flags })
        }
    } else if args[i] == "--fps"@ {
        if i + 1 >= args.len() {
            Err("--fps requires a value"@)
        } else {
            match parse_unsigned(args[i + 1], u16::MAX as nat) {
                None => Err(in_quotes(args[i + 1]) + " is not a valid frame rate"@),
                Some(fps) => if fps < 1 || fps > 60 {
                    Err("--fps must be between 1 and 60"@)
                } else {
                    run_flags(args, i + 2, RunFlags { fps: fps as u16, ..flags })
                },
            }
        }
    } else if args[i] == "--firecrab-endpoint"@ {
        if i + 1 >= args.len() {
            Err("--firecrab-endpoint requires a value"@)
        } else {
            run_flags(args, i + 2, RunFlags { endpoint: Some(args[i + 1]), ..flags })
        }
    } else if args[i] == "--stats"@ {
        run_flags(args, i + 1, RunFlags { stats: true, ..flags })
    } else {
        Err("unexpected argument "@ + in_quotes(args[i]) + "; put application arguments after --"@)
    }
}

/// Before any flag: the native runtime, not chosen explicitly, 30 frames
/// per second, no statistics, no application arguments, no endpoint.
pub open spec fn initial_run_flags() -> RunFlags {
    RunFlags {
        runtime: "native"@,
        explicit: false,
        fps: 30,
        stats: false,
        arguments: Seq::empty(),
        endpoint: None,
    }
}

/// `run <APPLICATION> [flags] [-- ARGS...]`: the native runtime at 30
/// frames per second unless the flags say otherwise; an application that
/// reads as an OCI reference runs under `oci` unless `--runtime` was given.
pub open spec fn run_options_at(args: Seq<Seq<char>>, start: int) -> Result<RunOptionsView, Seq<char>> {
    if start < 0 || start >= args.len() {
        Err("run requires an application"@)
    } else {
        match run_flags(args, start + 1, initial_run_flags()) {
            Err(m) => Err(m),
            Ok(flags) => Ok(
                RunOptionsView {
                    application: args[start],
                    application_arguments: flags.arguments,
                    runtime: if !flags.explicit && oci_reference(args[start]) {
                        "oci"@
                    } else {
                        flags.runtime
                    },
                    fps: flags.fps,
                    stats: flags.stats,
                    firecrab_endpoint: flags.endpoint,
                },
            ),
        }
    }
}

proof fn lemma_run_result(
    args: Seq<Seq<char>>,
    start: int,
    index: int,
    flags: RunFlags,
)
    requires
        0 <= start < args.len(),
        run_flags(args, start + 1, initial_run_flags()) == run_flags(args, index, flags),
    ensures
        run_flags(args, index, flags) matches Err(m) ==> run_options_at(args, start) == Err::<
            RunOptionsView,
            Seq<char>,
        >(m),
        run_flags(args, index, flags) matches Ok(f) ==> run_options_at(args, start) == Ok::<
            RunOptionsView,
            Seq<char>,
        >(
            RunOptionsView {
                application: args[start],
                application_arguments: f.arguments,
                runtime: if !f.explicit && oci_reference(args[start]) {
                    "oci"@
                } else {
                    f.runtime
                },
                fps: f.fps,
                stats: f.stats,
                firecrab_endpoint: f.endpoint,
            },
        ),
{
}

/// `--runtime` accepts exactly `native`, `oci`, `docker` and `firecrab`:
/// with one of them the run uses it (and `--firecrab-endpoint` is kept
/// beside it), at the default 30 frames per second; any other value is
/// refused with its name.
pub proof fn lemma_runtime_values(application: Seq<char>, runtime: Seq<char>, endpoint: Seq<char>)
    ensures
        runtime == "native"@ || runtime == "oci"@ || runtime == "docker"@ || runtime == "firecrab"@
            ==> run_options_at(seq![application, "--runtime"@, runtime], 0) == Ok::<
            RunOptionsView,
            Seq<char>,
        >(
            RunOptionsView {
                application,
                application_arguments: Seq::empty(),
                runtime,
                fps: 30,
                stats: false,
                firecrab_endpoint: None,
            },
        ),
        runtime == "native"@ || runtime == "oci"@ || runtime == "docker"@ || runtime == "firecrab"@
            ==> run_options_at(
            seq![application, "--runtime"@, runtime, "--firecrab-endpoint"@, endpoint],
            0,
        ) == Ok::<RunOptionsView, Seq<char>>(
            RunOptionsView {
                application,
                application_arguments: Seq::empty(),
                runtime,
                fps: 30,
                stats: false,
                firecrab_endpoint: Some(endpoint),
            },
        ),
        !(runtime == "native"@ || runtime == "oci"@ || runtime == "docker"@ || runtime
            == "firecrab"@) ==> run_options_at(seq![application, "--runtime"@, runtime], 0)
            == Err::<RunOptionsView, Seq<char>>("unsupported runtime "@ + in_quotes(runtime)),
{
    reveal_strlit("--");
    reveal_strlit("--runtime");
    reveal_strlit("--firecrab-endpoint");
    let short = seq![application, "--runtime"@, runtime];
    let long = seq![application, "--runtime"@, runtime, "--firecrab-endpoint"@, endpoint];
    reveal_strlit("--fps");
    assert("--"@.len() == 2 && "--runtime"@.len() == 9 && "--fps"@.len() == 5
        && "--firecrab-endpoint"@.len() == 19);
    assert(short[1] == "--runtime"@ && long[1] == "--runtime"@ && long[3] == "--firecrab-endpoint"@);
    reveal_with_fuel(run_flags, 4);
}

/// `--fps` takes a rate from 1 to 60 frames per second and refuses any
/// other number.
pub proof fn lemma_fps_values(application: Seq<char>, fps: u16)
    ensures
        1 <= fps <= 60 ==> (run_options_at(seq![application, "--fps"@, decimal(fps as nat)], 0) matches Ok(
            o,
        ) && o.fps == fps && o.application == application),
        (fps == 0 || fps > 60) ==> run_options_at(
            seq![application, "--fps"@, decimal(fps as nat)],
            0,
        ) == Err::<RunOptionsView, Seq<char>>("--fps must be between 1 and 60"@),
{
    reveal_strlit("--");
    reveal_strlit("--runtime");
    reveal_strlit("--fps");
    assert("--"@.len() == 2 && "--runtime"@.len() == 9 && "--fps"@.len() == 5);
    let args = seq![application, "--fps"@, decimal(fps as nat)];
    assert(args[1] == "--fps"@);
    lemma_parse_decimal(fps as nat, u16::MAX as nat);
    reveal_with_fuel(run_flags, 3);
}

/// Scanning flags up to the first `--` gives the same flags as scanning the
/// arguments before it; the `--` then hands everything after it over.
proof fn lemma_flags_before_separator(args: Seq<Seq<char>>, d: int, i: int, flags: RunFlags)
    requires
        1 <= i <= d < args.len(),
        args[d] == "--"@,
        forall|k: int| i <= k < d ==> args[k] != "--"@,
        run_flags(args.take(d), i, flags) is Ok,
    ensures
        run_flags(args, i, flags) == Ok::<RunFlags, Seq<char>>(
            RunFlags { arguments: args.skip(d + 1), ..run_flags(args.take(d), i, flags)->Ok_0 },
        ),
    decreases d - i,
{
    let prefix = args.take(d);
    if i < d {
        assert(prefix[i] == args[i]);
        if i + 1 < d {
            assert(prefix[i + 1] == args[i + 1]);
        }
        if args[i] == "--runtime"@ || args[i] == "--fps"@ || args[i] == "--firecrab-endpoint"@ {
            if i + 1 < d {
                let next = if args[i] == "--runtime"@ {
                    RunFlags { runtime: args[i + 1], explicit: true, ..flags }
                } else if args[i] == "--fps"@ {
                    RunFlags {
                        fps: match parse_unsigned(args[i + 1], u16::MAX as nat) {
                            Some(fps) => fps as u16,
                            None => flags.fps,
                        },
                        ..flags
                    }
                } else {
                    RunFlags { endpoint: Some(args[i + 1]), ..flags }
                };
                if i + 2 <= d {
                    lemma_flags_before_separator(args, d, i + 2, next);
                }
            }
        } else if args[i] == "--stats"@ {
            lemma_flags_before_separator(args, d, i + 1, RunFlags { stats: true, ..flags });
        }
    }
}

/// Everything after the first `--` of `run` reaches the application as it
/// is: the options are those of the arguments before it, with the rest as
/// the application's arguments, even where it reads like a flag.
pub proof fn lemma_arguments_after_separator(args: Seq<Seq<char>>, d: int)
    requires
        1 <= d < args.len(),
        args[d] == "--"@,
        forall|k: int| 1 <= k < d ==> args[k] != "--"@,
        run_options_at(args.take(d), 0) is Ok,
    ensures
        run_options_at(args, 0) == Ok::<RunOptionsView, Seq<char>>(
            RunOptionsView {
                application_arguments: args.skip(d + 1),
                ..run_options_at(args.take(d), 0)->Ok_0
            },
        ),
{
    assert(args.take(d)[0] == args[0]);
    lemma_flags_before_separator(args, d, 1, initial_run_flags());
}

fn copy_strings_from(args: &[String], start: usize) -> (copy: Vec<String>)
    requires
        start <= args@.len(),
    ensures
        texts(copy@) == texts(args@).skip(start as int),
{
    let mut copy: Vec<String> = Vec::new();
    let mut k = start;
    while k < args.len()
        invariant
            start <= k <= args@.len(),
            texts(copy@) == texts(args@).subrange(start as int, k as int),
        decreases args.len() - k,
    {
        let ghost before = texts(copy@);
        crate::text::push_text(&mut copy, crate::text::copy_string(&args[k]));
        assert(texts(args@).subrange(start as int, k + 1) =~= before.push(args@[k as int]@));
        k = k + 1;
    }
    assert(texts(args@).subrange(start as int, k as int) =~= texts(args@).skip(start as int));
    copy
}

fn run_options_from(args: &[String], start: usize) -> (r: Result<RunOptions, String>)
    requires
        start <= args@.len(),
    ensures
        match r {
            Ok(o) => run_options_at(texts(args@), start as int) == Ok::<RunOptionsView, Seq<char>>(
                o@,
            ),
            Err(m) => run_options_at(texts(args@), start as int) == Err::<RunOptionsView, Seq<char>>(
                m@,
            ),
        },
{
    let ghost all = texts(args@);
    if start >= args.len() {
        return Err(owned("run requires an application"));
    }
    let application = args[start].as_str();
    let mut runtime = owned("native");
    let mut runtime_explicit = false;
    let mut fps: u16 = 30;
    let mut stats = false;
    let mut application_arguments: Vec<String> = Vec::new();
    let mut firecrab_endpoint: Option<String> = None;
    let mut index = start + 1;
    let ghost initial = initial_run_flags();
    assert(texts(application_arguments@) =~= Seq::<Seq<char>>::empty());
    while index < args.len()
        invariant
            start < args@.len(),
            initial == initial_run_flags(),
            start + 1 <= index <= args@.len(),
            all == texts(args@),
            all[start as int] == application@,
            run_flags(all, start + 1, initial) == run_flags(
                all,
                index as int,
                RunFlags {
                    runtime: runtime@,
                    explicit: runtime_explicit,
                    fps,
                    stats,
                    arguments: texts(application_arguments@),
                    endpoint: option_text(firecrab_endpoint),
                },
            ),
        ensures
            index == args@.len(),
        decreases args.len() - index,
    {
        let ghost flags = RunFlags {
            runtime: runtime@,
            explicit: runtime_explicit,
            fps,
            stats,
            arguments: texts(application_arguments@),
            endpoint: option_text(firecrab_endpoint),
        };
        proof {
            lemma_run_result(all, start as int, index as int, flags);
        }
        let arg = args[index].as_str();
        assert(all[index as int] == arg@);
        if str_eq(arg, "--") {
            application_arguments = copy_strings_from(args, index + 1);
            index = args.len();
            break;
        }
        if str_eq(arg, "--runtime") {
            if index + 1 >= args.len() {
                return Err(owned("--runtime requires a value"));
            }
            let value = args[index + 1].as_str();
            assert(all[index + 1] == value@);
            if !(str_eq(value, "native") || str_eq(value, "oci") || str_eq(value, "docker")
                || str_eq(value, "firecrab")) {
                proof {
                    reveal_strlit("");
                    assert("unsupported runtime "@ + in_quotes(value@) + ""@ =~= "unsupported runtime "@
                        + in_quotes(value@));
                }
                return Err(quote_between("unsupported runtime ", value, ""));
            }
            runtime = owned(value);
            runtime_explicit = true;
            index = index + 2;
            continue;
        }
        if str_eq(arg, "--fps") {
            if index + 1 >= args.len() {
                return Err(owned("--fps requires a value"));
            }
            let value = args[index + 1].as_str();
            assert(all[index + 1] == value@);
            let parsed = match parse_unsigned_str(value, 0xffff) {
                Some(v) => v as u16,
                None => {
                    proof {
                        reveal_strlit("");
                        assert(""@ + in_quotes(value@) + " is not a valid frame rate"@ =~= in_quotes(
                            value@,
                        ) + " is not a valid frame rate"@);
                    }
                    return Err(quote_between("", value, " is not a valid frame rate"));
                },
            };
            if parsed < 1 || parsed > 60 {
                return Err(owned("--fps must be between 1 and 60"));
            }
            fps = parsed;
            index = index + 2;
            continue;
        }
        if str_eq(arg, "--firecrab-endpoint") {
            if index + 1 >= args.len() {
                return Err(owned("--firecrab-endpoint requires a value"));
            }
            let value = args[index + 1].as_str();
            assert(all[index + 1] == value@);
            firecrab_endpoint = Some(owned(value));
            index = index + 2;
            continue;
        }
        if str_eq(arg, "--stats") {
            stats = true;
            index = index + 1;
            continue;
        }
        return Err(
            quote_between("unexpected argument ", arg, "; put application arguments after --"),
        );
    }
    proof {
        let flags = RunFlags {
            runtime: runtime@,
            explicit: runtime_explicit,
            fps,
            stats,
            arguments: texts(application_arguments@),
            endpoint: option_text(firecrab_endpoint),
        };
        lemma_run_result(all, start as int, index as int, flags);
    }
    if !runtime_explicit && looks_like_oci_reference(application) {
        runtime = owned("oci");
    }
    Ok(
        RunOptions {
            application: owned(application),
            application_arguments,
            runtime,
            fps,
            stats,
            firecrab_endpoint,
        },
    )
}

/// Reads the options of `run`.
pub fn parse_run_options(args: &[String]) -> (r: Result<RunOptions, String>)
    ensures
        match r {
            Ok(o) => run_options_at(texts(args@), 0) == Ok::<RunOptionsView, Seq<char>>(o@),
            Err(m) => run_options_at(texts(args@), 0) == Err::<RunOptionsView, Seq<char>>(m@),
        },
        args@.len() == 3 && args@[1]@ == "--runtime"@ && (args@[2]@ == "native"@ || args@[2]@
            == "oci"@ || args@[2]@ == "docker"@ || args@[2]@ == "firecrab"@) ==> (r matches Ok(o)
            && o.application@ == args@[0]@ && o.runtime@ == args@[2]@ && o.fps == 30),
{
    proof {
        if args@.len() == 3 {
            assert(texts(args@) =~= seq![args@[0]@, args@[1]@, args@[2]@]);
            lemma_runtime_values(args@[0]@, args@[2]@, Seq::empty());
        }
    }
    run_options_from(args, 0)
}

/// Options of `agent`, before the token is read from the environment.
#[derive(Debug, PartialEq, Eq)]
pub struct AgentOptions {
    pub application: String,
    pub listen: String,
    pub width: u16,
    pub height: u16,
    pub fps: u16,
    pub arguments: Vec<String>,
}

pub struct AgentOptionsView {
    pub application: Seq<char>,
    pub listen: Seq<char>,
    pub width: u16,
    pub height: u16,
    pub fps: u16,
    pub arguments: Seq<Seq<char>>,
}

impl View for AgentOptions {
    type V = AgentOptionsView;

    open spec fn view(&self) -> AgentOptionsView {
        AgentOptionsView {
            application: self.application@,
            listen: self.listen@,
            width: self.width,
            height: self.height,
            fps: self.fps,
            arguments: texts(self.arguments@),
        }
    }
}

/// What the flags of `agent` have set so far.
pub struct AgentFlags {
    pub listen: Seq<char>,
    pub width: u16,
    pub height: u16,
    pub fps: u16,
    pub arguments: Seq<Seq<char>>,
}

/// Before any flag: all interfaces on the agent port, 640 x 360 at 30
/// frames per second, no application arguments.
pub open spec fn initial_agent_flags() -> AgentFlags {
    AgentFlags {
        listen: "0.0.0.0:"@ + decimal(DEFAULT_AGENT_PORT as nat),
        width: 640,
        height: 360,
        fps: 30,
        arguments: Seq::empty(),
    }
}

/// The flags `args[i..]` of `agent` on top of `flags`.
pub open spec fn agent_flags(args: Seq<Seq<char>>, i: int, flags: AgentFlags) -> Result<
    AgentFlags,
    Seq<char>,
>
    decreases args.len() - i,
{
    if i < 0 || i >= args.len() {
        Ok(flags)
    } else if args[i] == "--"@ {
        Ok(AgentFlags { arguments: args.skip(i + 1), ..flags })
    } else if args[i] == "--width"@ || args[i] == "--height"@ || args[i] == "--fps"@ {
        if i + 1 >= args.len() {
            Err(args[i] + " requires a value"@)
        } else {
            match parse_unsigned(args[i + 1], u16::MAX as nat) {
                None => Err(in_quotes(args[i + 1]) + " is not a valid number"@),
                Some(n) => agent_flags(
                    args,
                    i + 2,
                    if args[i] == "--width"@ {
                        AgentFlags { width: n as u16, ..flags }
                    } else if args[i] == "--height"@ {
                        AgentFlags { height: n as u16, ..flags }
                    } else {
                        AgentFlags { fps: n as u16, ..flags }
                    },
                ),
            }
        }
    } else if args[i] == "--listen"@ {
        if i + 1 >= args.len() {
            Err("--listen requires a value"@)
        } else {
            agent_flags(args, i + 2, AgentFlags { listen: args[i + 1], ..flags })
        }
    } else {
        Err("unknown agent option "@ + in_quotes(args[i]))
    }
}

/// `agent <APPLICATION> [flags] [-- ARGS...]`; the size must not be zero
/// and the frame rate must lie in 1..=60.
pub open spec fn agent_options_at(args: Seq<Seq<char>>, start: int) -> Result<
    AgentOptionsView,
    Seq<char>,
> {
    if start < 0 || start >= args.len() {
        Err("agent requires an application"@)
    } else {
        match agent_flags(args, start + 1, initial_agent_flags()) {
            Err(m) => Err(m),
            Ok(flags) => if flags.width == 0 || flags.height == 0 {
                Err("agent dimensions must be non-zero"@)
            } else if flags.fps < 1 || flags.fps > 60 {
                Err("agent FPS must be between 1 and 60"@)
            } else {
                Ok(
                    AgentOptionsView {
                        application: args[start],
                        listen: flags.listen,
                        width: flags.width,
                        height: flags.height,
                        fps: flags.fps,
                        arguments: flags.arguments,
                    },
                )
            },
        }
    }
}

proof fn lemma_agent_result(args: Seq<Seq<char>>, start: int, index: int, flags: AgentFlags)
    requires
        0 <= start < args.len(),
        agent_flags(args, start + 1, initial_agent_flags()) == agent_flags(args, index, flags),
    ensures
        agent_flags(args, index, flags) matches Err(m) ==> agent_options_at(args, start) == Err::<
            AgentOptionsView,
            Seq<char>,
        >(m),
        agent_flags(args, index, flags) matches Ok(f) ==> agent_options_at(args, start) == if f.width
            == 0 || f.height == 0 {
            Err::<AgentOptionsView, Seq<char>>("agent dimensions must be non-zero"@)
        } else if f.fps < 1 || f.fps > 60 {
            Err::<AgentOptionsView, Seq<char>>("agent FPS must be between 1 and 60"@)
        } else {
            Ok::<AgentOptionsView, Seq<char>>(
                AgentOptionsView {
                    application: args[start],
                    listen: f.listen,
                    width: f.width,
                    height: f.height,
                    fps: f.fps,
                    arguments: f.arguments,
                },
            )
        },
{
}

fn agent_options_from(args: &[String], start: usize) -> (r: Result<AgentOptions, String>)
    requires
        start <= args@.len(),
    ensures
        match r {
            Ok(o) => agent_options_at(texts(args@), start as int) == Ok::<
                AgentOptionsView,
                Seq<char>,
            >(o@),
            Err(m) => agent_options_at(texts(args@), start as int) == Err::<
                AgentOptionsView,
                Seq<char>,
            >(m@),
        },
{
    let ghost all = texts(args@);
    if start >= args.len() {
        return Err(owned("agent requires an application"));
    }
    let application = args[start].as_str();
    let mut listen = owned("0.0.0.0:");
    push_decimal(&mut listen, DEFAULT_AGENT_PORT as u64);
    let mut width: u16 = 640;
    let mut height: u16 = 360;
    let mut fps: u16 = 30;
    let mut arguments: Vec<String> = Vec::new();
    let mut index = start + 1;
    let ghost initial = initial_agent_flags();
    assert(texts(arguments@) =~= Seq::<Seq<char>>::empty());
    while index < args.len()
        invariant
            start < args@.len(),
            initial == initial_agent_flags(),
            start + 1 <= index <= args@.len(),
            all == texts(args@),
            all[start as int] == application@,
            agent_flags(all, start + 1, initial) == agent_flags(
                all,
                index as int,
                AgentFlags { listen: listen@, width, height, fps, arguments: texts(arguments@) },
            ),
        ensures
            index == args@.len(),
        decreases args.len() - index,
    {
        let ghost flags = AgentFlags {
            listen: listen@,
            width,
            height,
            fps,
            arguments: texts(arguments@),
        };
        proof {
            lemma_agent_result(all, start as int, index as int, flags);
        }
        let arg = args[index].as_str();
        assert(all[index as int] == arg@);
        if str_eq(arg, "--") {
            arguments = copy_strings_from(args, index + 1);
            index = args.len();
            break;
        }
        let is_width = str_eq(arg, "--width");
        let is_height = str_eq(arg, "--height");
        let is_fps = str_eq(arg, "--fps");
        if is_width || is_height || is_fps {
            if index + 1 >= args.len() {
                return Err(suffixed(arg, " requires a value"));
            }
            let value = args[index + 1].as_str();
            assert(all[index + 1] == value@);
            let parsed = match parse_unsigned_str(value, 0xffff) {
                Some(v) => v as u16,
                None => {
                    proof {
                        reveal_strlit("");
                        assert(""@ + in_quotes(value@) + " is not a valid number"@ =~= in_quotes(
                            value@,
                        ) + " is not a valid number"@);
                    }
                    return Err(quote_between("", value, " is not a valid number"));
                },
            };
            if is_width {
                width = parsed;
            } else if is_height {
                height = parsed;
            } else {
                fps = parsed;
            }
            index = index + 2;
            continue;
        }
        if str_eq(arg, "--listen") {
            if index + 1 >= args.len() {
                return Err(owned("--listen requires a value"));
            }
            let value = args[index + 1].as_str();
            assert(all[index + 1] == value@);
            listen = owned(value);
            index = index + 2;
            continue;
        }
        proof {
            reveal_strlit("");
            assert("unknown agent option "@ + in_quotes(arg@) + ""@ =~= "unknown agent option "@
                + in_quotes(arg@));
        }
        return Err(quote_between("unknown agent option ", arg, ""));
    }
    proof {
        let flags = AgentFlags {
            listen: listen@,
            width,
            height,
            fps,
            arguments: texts(arguments@),
        };
        lemma_agent_result(all, start as int, index as int, flags);
    }
    if width == 0 || height == 0 {
        return Err(owned("agent dimensions must be non-zero"));
    }
    if fps < 1 || fps > 60 {
        return Err(owned("agent FPS must be between 1 and 60"));
    }
    Ok(AgentOptions { application: owned(application), listen, width, height, fps, arguments })
}

/// Reads the options of `agent`.
pub fn parse_agent_options(args: &[String]) -> (r: Result<AgentOptions, String>)
    ensures
        match r {
            Ok(o) => agent_options_at(texts(args@), 0) == Ok::<AgentOptionsView, Seq<char>>(o@),
            Err(m) => agent_options_at(texts(args@), 0) == Err::<AgentOptionsView, Seq<char>>(m@),
        },
{
    agent_options_from(args, 0)
}

/// The usage text.
pub const HELP: &'static str = "micro-gui \u{2014} GUI applications, without the desktop

Usage:
  micro-gui doctor
  micro-gui demo [--width PIXELS] [--height PIXELS]
  micro-gui run <APPLICATION|OCI_IMAGE> [--runtime native|oci|firecrab] [--fps 1..60] [--stats] [-- ARGS...]
  micro-gui agent <APPLICATION> [--listen ADDRESS] [--fps 1..60] [-- ARGS...]
  micro-gui ps
  micro-gui stop <SESSION_ID>
  micro-gui help

Commands:
  doctor  Inspect terminal capabilities needed by micro-gui
  demo    Render a generated RGB frame with the Kitty Graphics Protocol
  run     Run one host application or OCI image on a private Xvfb display
  agent   Serve a GUI application to a Firecrab host client
  ps      List running micro-gui sessions
  stop    Gracefully stop a running session
";

/// A command of the command line.
#[derive(Debug, PartialEq, Eq)]
pub enum Command {
    Help,
    Version,
    Doctor,
    Demo(DemoOptions),
    Run(RunOptions),
    Agent(AgentOptions),
    Ps,
    Stop(String),
}

pub enum CommandView {
    Help,
    Version,
    Doctor,
    Demo(DemoOptions),
    Run(RunOptionsView),
    Agent(AgentOptionsView),
    Ps,
    Stop(Seq<char>),
}

impl View for Command {
    type V = CommandView;

    open spec fn view(&self) -> CommandView {
        match self {
            Command::Help => CommandView::Help,
            Command::Version => CommandView::Version,
            Command::Doctor => CommandView::Doctor,
            Command::Demo(options) => CommandView::Demo(*options),
            Command::Run(options) => CommandView::Run(options@),
            Command::Agent(options) => CommandView::Agent(options@),
            Command::Ps => CommandView::Ps,
            Command::Stop(id) => CommandView::Stop(id@),
        }
    }
}

/// The command that `args` (without the program name) asks for: help when
/// there are none; `doctor` and `ps` take no argument and `stop` exactly
/// one; an unknown command is refused with the usage text.
pub open spec fn command_of(args: Seq<Seq<char>>) -> Result<CommandView, Seq<char>> {
    if args.len() == 0 {
        Ok(CommandView::Help)
    } else {
        let name = args[0];
        if name == "doctor"@ {
            if args.len() != 1 {
                Err("doctor does not accept arguments"@)
            } else {
                Ok(CommandView::Doctor)
            }
        } else if name == "demo"@ {
            match demo_options_at(args, 1) {
                Ok(options) => Ok(CommandView::Demo(options)),
                Err(m) => Err(m),
            }
        } else if name == "run"@ {
            match run_options_at(args, 1) {
                Ok(options) => Ok(CommandView::Run(options)),
                Err(m) => Err(m),
            }
        } else if name == "agent"@ {
            match agent_options_at(args, 1) {
                Ok(options) => Ok(CommandView::Agent(options)),
                Err(m) => Err(m),
            }
        } else if name == "ps"@ {
            if args.len() != 1 {
                Err("ps does not accept arguments"@)
            } else {
                Ok(CommandView::Ps)
            }
        } else if name == "stop"@ {
            if args.len() != 2 {
                Err("stop requires exactly one session id"@)
            } else {
                Ok(CommandView::Stop(args[1]))
            }
        } else if name == "help"@ || name == "--help"@ || name == "-h"@ {
            Ok(CommandView::Help)
        } else if name == "--version"@ || name == "-V"@ {
            Ok(CommandView::Version)
        } else {
            Err("unknown command "@ + in_quotes(name) + "\n\n"@ + HELP@)
        }
    }
}

/// Reads the command line (without the program name).
pub fn parse_command(args: &[String]) -> (r: Result<Command, String>)
    ensures
        match r {
            Ok(command) => command_of(texts(args@)) == Ok::<CommandView, Seq<char>>(command@),
            Err(m) => command_of(texts(args@)) == Err::<CommandView, Seq<char>>(m@),
        },
{
    let ghost all = texts(args@);
    if args.len() == 0 {
        return Ok(Command::Help);
    }
    let name = args[0].as_str();
    assert(all[0] == name@);
    if str_eq(name, "doctor") {
        if args.len() != 1 {
            return Err(owned("doctor does not accept arguments"));
        }
        return Ok(Command::Doctor);
    }
    if str_eq(name, "demo") {
        return match demo_options_from(args, 1) {
            Ok(options) => Ok(Command::Demo(options)),
            Err(m) => Err(m),
        };
    }
    if str_eq(name, "run") {
        return match run_options_from(args, 1) {
            Ok(options) => Ok(Command::Run(options)),
            Err(m) => Err(m),
        };
    }
    if str_eq(name, "agent") {
        return match agent_options_from(args, 1) {
            Ok(options) => Ok(Command::Agent(options)),
            Err(m) => Err(m),
        };
    }
    if str_eq(name, "ps") {
        if args.len() != 1 {
            return Err(owned("ps does not accept arguments"));
        }
        return Ok(Command::Ps);
    }
    if str_eq(name, "stop") {
        if args.len() != 2 {
            return Err(owned("stop requires exactly one session id"));
        }
        assert(all[1] == args@[1]@);
        return Ok(Command::Stop(owned(args[1].as_str())));
    }
    if str_eq(name, "help") || str_eq(name, "--help") || str_eq(name, "-h") {
        return Ok(Command::Help);
    }
    if str_eq(name, "--version") || str_eq(name, "-V") {
        return Ok(Command::Version);
    }
    let mut message = quote_between("unknown command ", name, "\n\n");
    push_str(&mut message, HELP);
    Err(message)
}

/// `demo --width W --height H` draws W x H pixels when both lie in
/// 1..=4096, and refuses a zero side first, then a side over 4096.
pub proof fn lemma_demo_size(width: u32, height: u32)
    ensures
        demo_options_at(
            seq!["--width"@, decimal(width as nat), "--height"@, decimal(height as nat)],
            0,
        ) == if width == 0 || height == 0 {
            Err::<DemoOptions, Seq<char>>("demo dimensions must be greater than zero"@)
        } else if width > 4096 || height > 4096 {
            Err::<DemoOptions, Seq<char>>("demo dimensions must not exceed 4096 pixels"@)
        } else {
            Ok::<DemoOptions, Seq<char>>(DemoOptions { width, height })
        },
{
    reveal_strlit("--width");
    reveal_strlit("--height");
    assert("--width"@.len() == 7 && "--height"@.len() == 8);
    lemma_parse_decimal(width as nat, u32::MAX as nat);
    lemma_parse_decimal(height as nat, u32::MAX as nat);
    reveal_with_fuel(demo_flags, 3);
}

/// Texts that differ at one place differ.
proof fn lemma_texts_differ(a: Seq<char>, b: Seq<char>, i: int)
    requires
        0 <= i < a.len(),
        i < b.len(),
        a[i] != b[i],
    ensures
        a != b,
{
}

/// The commands and their defaults: no arguments, `help`, `--help` and
/// `-h` ask for help; `--version` and `-V` for the version; `doctor` and
/// `ps` take nothing; `stop` takes one session id; `run APP` runs natively
/// (under `oci` for an image reference) at 30 frames per second; `agent
/// APP` listens on port 5943 of every address with a 640 x 360 display at
/// 30 frames per second; `demo` draws 320 x 180 pixels.
pub proof fn lemma_command_defaults(application: Seq<char>, id: Seq<char>)
    ensures
        command_of(Seq::empty()) == Ok::<CommandView, Seq<char>>(CommandView::Help),
        command_of(seq!["help"@]) == Ok::<CommandView, Seq<char>>(CommandView::Help),
        command_of(seq!["--help"@]) == Ok::<CommandView, Seq<char>>(CommandView::Help),
        command_of(seq!["-h"@]) == Ok::<CommandView, Seq<char>>(CommandView::Help),
        command_of(seq!["--version"@]) == Ok::<CommandView, Seq<char>>(CommandView::Version),
        command_of(seq!["-V"@]) == Ok::<CommandView, Seq<char>>(CommandView::Version),
        command_of(seq!["doctor"@]) == Ok::<CommandView, Seq<char>>(CommandView::Doctor),
        command_of(seq!["ps"@]) == Ok::<CommandView, Seq<char>>(CommandView::Ps),
        command_of(seq!["stop"@, id]) == Ok::<CommandView, Seq<char>>(CommandView::Stop(id)),
        command_of(seq!["demo"@]) == Ok::<CommandView, Seq<char>>(
            CommandView::Demo(DemoOptions { width: 320, height: 180 }),
        ),
        command_of(seq!["run"@, application]) == Ok::<CommandView, Seq<char>>(
            CommandView::Run(
                RunOptionsView {
                    application,
                    application_arguments: Seq::empty(),
                    runtime: if oci_reference(application) {
                        "oci"@
                    } else {
                        "native"@
                    },
                    fps: 30,
                    stats: false,
                    firecrab_endpoint: None,
                },
            ),
        ),
        command_of(seq!["agent"@, application]) == Ok::<CommandView, Seq<char>>(
            CommandView::Agent(
                AgentOptionsView {
                    application,
                    listen: "0.0.0.0:5943"@,
                    width: 640,
                    height: 360,
                    fps: 30,
                    arguments: Seq::empty(),
                },
            ),
        ),
{
    reveal_strlit("help");
    reveal_strlit("--help");
    reveal_strlit("-h");
    reveal_strlit("--version");
    reveal_strlit("-V");
    reveal_strlit("doctor");
    reveal_strlit("ps");
    reveal_strlit("stop");
    reveal_strlit("demo");
    reveal_strlit("run");
    reveal_strlit("agent");
    reveal_strlit("0.0.0.0:");
    reveal_strlit("0.0.0.0:5943");
    assert(decimal(5943) =~= seq!['5', '9', '4', '3']) by {
        reveal_with_fuel(decimal, 5);
    }
    assert("0.0.0.0:"@ + decimal(DEFAULT_AGENT_PORT as nat) =~= "0.0.0.0:5943"@);
    assert("help"@.len() == 4 && "--help"@.len() == 6 && "-h"@.len() == 2 && "--version"@.len()
        == 9 && "-V"@.len() == 2 && "doctor"@.len() == 6 && "ps"@.len() == 2 && "stop"@.len() == 4
        && "demo"@.len() == 4 && "run"@.len() == 3 && "agent"@.len() == 5);
    lemma_texts_differ("help"@, "demo"@, 0);
    lemma_texts_differ("help"@, "stop"@, 0);
    lemma_texts_differ("demo"@, "stop"@, 0);
    lemma_texts_differ("--help"@, "doctor"@, 0);
    lemma_texts_differ("ps"@, "-h"@, 0);
    lemma_texts_differ("ps"@, "-V"@, 0);
    lemma_texts_differ("-h"@, "-V"@, 1);
}

} // verus!
