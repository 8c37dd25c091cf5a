//! Input events forwarded to the GUI application, and the mapping of
//! terminal cells onto frame pixels.
use vstd::prelude::*;

verus! {

/// An input event for the application.
#[derive(Debug, Clone, PartialEq, Eq)]
pub enum InputEvent {
    Key(KeyEvent),
    Text(String),
    Mouse(MouseEvent),
    Resize { width: u16, height: u16 },
}

/// A key press or release, identified by its X11 keysym.
#[derive(Debug, Clone, PartialEq, Eq)]
pub struct KeyEvent {
    pub text: Option<String>,
    pub code: u32,
    pub pressed: bool,
    pub modifiers: u8,
}

#[derive(Debug, Clone, Copy, PartialEq, Eq)]
pub enum MouseButton {
    Left,
    Middle,
    Right,
    WheelUp,
    WheelDown,
}

#[derive(Debug, Clone, Copy, PartialEq, Eq)]
pub enum MouseKind {
    Press,
    Release,
    Move,
}

#[derive(Debug, Clone, Copy, PartialEq, Eq)]
pub struct MouseEvent {
    pub x: u32,
    pub y: u32,
    pub button: Option<MouseButton>,
    pub kind: MouseKind,
    pub modifiers: u8,
}

/// The content of a [`KeyEvent`].
pub struct KeyEventView {
    pub text: Option<Seq<char>>,
    pub code: u32,
    pub pressed: bool,
    pub modifiers: u8,
}

/// The content of an [`InputEvent`].
pub enum InputEventView {
    Key(KeyEventView),
    Text(Seq<char>),
    Mouse(MouseEvent),
    Resize { width: u16, height: u16 },
}

impl View for KeyEvent {
    type V = KeyEventView;

    open spec fn view(&self) -> KeyEventView {
        KeyEventView {
            text: match self.text {
                Some(text) => Some(text@),
                None => None,
            },
            code: self.code,
            pressed: self.pressed,
            modifiers: self.modifiers,
        }
    }
}

impl View for InputEvent {
    type V = InputEventView;

    open spec fn view(&self) -> InputEventView {
        match self {
            InputEvent::Key(event) => InputEventView::Key(event@),
            InputEvent::Text(text) => InputEventView::Text(text@),
            InputEvent::Mouse(event) => InputEventView::Mouse(*event),
            InputEvent::Resize { width, height } => InputEventView::Resize {
                width: *width,
                height: *height,
            },
        }
    }
}

/// Maps terminal cells onto the pixels of a frame of fixed size.
#[derive(Debug, Clone, Copy, PartialEq, Eq)]
pub struct ViewportMapping {
    terminal_columns: u16,
    terminal_rows: u16,
    frame_width: u32,
    frame_height: u32,
}

/// The pixel coordinate of cell `cell` (clamped to the last cell) when
/// `cells` cells span `pixels` pixels: `min(cell, cells - 1) * pixels / cells`.
pub open spec fn mapped_coordinate(cell: u16, cells: u16, pixels: u32) -> int {
    let clamped = if cell < cells - 1 {
        cell as int
    } else {
        cells - 1
    };
    clamped * pixels as int / cells as int
}

impl ViewportMapping {
    #[verifier::type_invariant]
    spec fn non_empty(self) -> bool {
        self.terminal_columns > 0 && self.terminal_rows > 0 && self.frame_width > 0
            && self.frame_height > 0
    }

    pub closed spec fn columns(self) -> u16 {
        self.terminal_columns
    }

    pub closed spec fn rows(self) -> u16 {
        self.terminal_rows
    }

    pub closed spec fn width(self) -> u32 {
        self.frame_width
    }

    pub closed spec fn height(self) -> u32 {
        self.frame_height
    }

    /// A mapping for a terminal of `terminal_columns` x `terminal_rows` cells
    /// showing a frame of `frame_width` x `frame_height` pixels; `None` when
    /// any of them is zero.
    pub fn new(terminal_columns: u16, terminal_rows: u16, frame_width: u32, frame_height: u32) -> (r:
        Option<Self>)
        ensures
            (terminal_columns == 0 || terminal_rows == 0 || frame_width == 0 || frame_height == 0)
                <==> r is None,
            r matches Some(mapping) ==> mapping.columns() == terminal_columns && mapping.rows()
                == terminal_rows && mapping.width() == frame_width && mapping.height()
                == frame_height,
    {
        if terminal_columns == 0 || terminal_rows == 0 || frame_width == 0 || frame_height == 0 {
            return None;
        }
        Some(Self { terminal_columns, terminal_rows, frame_width, frame_height })
    }

    /// The frame size in pixels, never zero.
    pub fn frame_size(self) -> (size: (u32, u32))
        ensures
            size == (self.width(), self.height()),
            size.0 > 0 && size.1 > 0,
    {
        proof {
            use_type_invariant(&self);
        }
        (self.frame_width, self.frame_height)
    }

    /// The frame pixel at the top-left corner of a terminal cell; cells past
    /// the terminal's edge are clamped to the last row or column.
    pub fn map_cell(self, column: u16, row: u16) -> (point: (u32, u32))
        ensures
            self.columns() > 0,
            self.rows() > 0,
            self.width() > 0,
            self.height() > 0,
            point.0 == mapped_coordinate(column, self.columns(), self.width()),
            point.1 == mapped_coordinate(row, self.rows(), self.height()),
    {
        proof {
            use_type_invariant(&self);
        }
        let column = if column < self.terminal_columns - 1 {
            column
        } else {
            self.terminal_columns - 1
        } as u64;
        let row = if row < self.terminal_rows - 1 {
            row
        } else {
            self.terminal_rows - 1
        } as u64;
        proof {
            lemma_scaled_below(column as int, self.terminal_columns as int, self.frame_width as int);
            lemma_scaled_below(row as int, self.terminal_rows as int, self.frame_height as int);
        }
        let x = column * self.frame_width as u64 / self.terminal_columns as u64;
        let y = row * self.frame_height as u64 / self.terminal_rows as u64;
        (x as u32, y as u32)
    }
}

proof fn lemma_scaled_below(cell: int, cells: int, pixels: int)
    requires
        0 <= cell < cells,
        0 <= pixels,
        pixels <= u32::MAX,
        cells <= u16::MAX,
    ensures
        0 <= cell * pixels,
        cell * pixels <= u64::MAX,
        cell * pixels / cells <= pixels,
        pixels > 0 ==> cell * pixels / cells < pixels,
{
    assert(0 <= cell * pixels) by (nonlinear_arith)
        requires
            0 <= cell,
            0 <= pixels,
    ;
    assert(cell * pixels <= cells * pixels) by (nonlinear_arith)
        requires
            cell < cells,
            0 <= pixels,
    ;
    assert(cells * pixels <= 0xffff * 0xffff_ffffint) by (nonlinear_arith)
        requires
            cells <= 0xffff,
            pixels <= 0xffff_ffff,
            0 <= cells,
            0 <= pixels,
    ;
    assert(cell * pixels / cells <= pixels) by (nonlinear_arith)
        requires
            cell * pixels <= cells * pixels,
            0 <= cell * pixels,
            cells > 0,
    ;
    assert(pixels > 0 ==> cell * pixels / cells < pixels) by (nonlinear_arith)
        requires
            cell < cells,
            0 <= cell,
            cells > 0,
            0 <= pixels,
    ;
}

/// Every cell, even one past the terminal's edge, maps to a pixel inside the frame.
pub proof fn lemma_mapped_point_inside(mapping: ViewportMapping, column: u16, row: u16)
    requires
        mapping.columns() > 0,
        mapping.rows() > 0,
        mapping.width() > 0,
        mapping.height() > 0,
    ensures
        0 <= mapped_coordinate(column, mapping.columns(), mapping.width()) < mapping.width(),
        0 <= mapped_coordinate(row, mapping.rows(), mapping.height()) < mapping.height(),
{
    let c = if column < mapping.columns() - 1 {
        column as int
    } else {
        mapping.columns() - 1
    };
    let r = if row < mapping.rows() - 1 {
        row as int
    } else {
        mapping.rows() - 1
    };
    lemma_scaled_below(c, mapping.columns() as int, mapping.width() as int);
    lemma_scaled_below(r, mapping.rows() as int, mapping.height() as int);
    assert(0 <= c * mapping.width() / mapping.columns() as int) by (nonlinear_arith)
        requires
            0 <= c * mapping.width(),
            mapping.columns() > 0,
    ;
    assert(0 <= r * mapping.height() / mapping.rows() as int) by (nonlinear_arith)
        requires
            0 <= r * mapping.height(),
            mapping.rows() > 0,
    ;
}

/// Moving to a later cell never moves to an earlier pixel.
pub proof fn lemma_mapping_monotonic(a: u16, b: u16, cells: u16, pixels: u32)
    requires
        cells > 0,
        a <= b,
    ensures
        mapped_coordinate(a, cells, pixels) <= mapped_coordinate(b, cells, pixels),
{
    let ca = if a < cells - 1 {
        a as int
    } else {
        cells - 1
    };
    let cb = if b < cells - 1 {
        b as int
    } else {
        cells - 1
    };
    assert(ca * pixels as int <= cb * pixels as int) by (nonlinear_arith)
        requires
            ca <= cb,
            0 <= pixels,
    ;
    assert(ca * pixels as int / cells as int <= cb * pixels as int / cells as int)
        by (nonlinear_arith)
        requires
            ca * pixels as int <= cb * pixels as int,
            cells > 0,
    ;
}

} // verus!
