//! Decoding of terminal key, mouse and resize events into session actions.
//!
//! The terminal library's events are described here by plain values
//! ([`TerminalEvent`]); keys become X11 keysyms, mouse cells stay cells.
use vstd::prelude::*;

use crate::protocol::modifiers;
use crate::protocol::{
    InputEvent, InputEventView, KeyEvent, KeyEventView, MouseButton, MouseEvent, MouseKind,
};
use crate::text::push_char;
use xkeysym::key;

verus! {

// X11 keysyms of the named keys (X11 keysymdef.h).
pub const XK_BACKSPACE: u32 = 0xff08;

pub const XK_TAB: u32 = 0xff09;

pub const XK_RETURN: u32 = 0xff0d;

pub const XK_PAUSE: u32 = 0xff13;

pub const XK_SCROLL_LOCK: u32 = 0xff14;

pub const XK_ESCAPE: u32 = 0xff1b;

pub const XK_HOME: u32 = 0xff50;

pub const XK_LEFT: u32 = 0xff51;

pub const XK_UP: u32 = 0xff52;

pub const XK_RIGHT: u32 = 0xff53;

pub const XK_DOWN: u32 = 0xff54;

pub const XK_PAGE_UP: u32 = 0xff55;

pub const XK_PAGE_DOWN: u32 = 0xff56;

pub const XK_END: u32 = 0xff57;

pub const XK_PRINT: u32 = 0xff61;

pub const XK_INSERT: u32 = 0xff63;

pub const XK_MENU: u32 = 0xff67;

pub const XK_NUM_LOCK: u32 = 0xff7f;

pub const XK_KP_BEGIN: u32 = 0xff9d;

pub const XK_F1: u32 = 0xffbe;

pub const XK_ISO_LEFT_TAB: u32 = 0xfe20;

pub const XK_CAPS_LOCK: u32 = 0xffe5;

pub const XK_DELETE: u32 = 0xffff;

// Modifier bits of terminal key and mouse events.
pub const TERM_SHIFT: u8 = 0x01;

pub const TERM_CONTROL: u8 = 0x02;

pub const TERM_ALT: u8 = 0x04;

pub const TERM_SUPER: u8 = 0x08;

pub const TERM_HYPER: u8 = 0x10;

pub const TERM_META: u8 = 0x20;

/// A key as the terminal reports it.
#[derive(Debug, Clone, Copy, PartialEq, Eq, Structural)]
pub enum TerminalKeyCode {
    Backspace,
    Enter,
    Left,
    Right,
    Up,
    Down,
    Home,
    End,
    PageUp,
    PageDown,
    Tab,
    BackTab,
    Delete,
    Insert,
    F(u8),
    Char(char),
    Null,
    Esc,
    CapsLock,
    ScrollLock,
    NumLock,
    PrintScreen,
    Pause,
    Menu,
    KeypadBegin,
    Media,
    Modifier,
}

#[derive(Debug, Clone, Copy, PartialEq, Eq, Structural)]
pub enum TerminalKeyKind {
    Press,
    Repeat,
    Release,
}

/// A mouse button as the terminal reports it.
#[derive(Debug, Clone, Copy, PartialEq, Eq)]
pub enum TerminalButton {
    Left,
    Middle,
    Right,
}

#[derive(Debug, Clone, Copy, PartialEq, Eq)]
pub enum TerminalMouseKind {
    Down(TerminalButton),
    Up(TerminalButton),
    Drag(TerminalButton),
    Moved,
    ScrollDown,
    ScrollUp,
    ScrollLeft,
    ScrollRight,
}

/// A terminal event; `modifiers` hold the terminal's modifier bits
/// (`TERM_*`). Events the session ignores (focus, paste) are `Other`.
#[derive(Debug, Clone, Copy, PartialEq, Eq)]
pub enum TerminalEvent {
    Key { code: TerminalKeyCode, modifiers: u8, kind: TerminalKeyKind },
    Mouse { kind: TerminalMouseKind, column: u16, row: u16, modifiers: u8 },
    Resize(u16, u16),
    Other,
}

/// What the session does with a terminal event.
#[derive(Debug, Clone, PartialEq, Eq)]
pub enum TerminalAction {
    Input(InputEvent),
    Resize { columns: u16, rows: u16 },
    Quit,
}

pub enum TerminalActionView {
    Input(InputEventView),
    Resize { columns: u16, rows: u16 },
    Quit,
}

impl View for TerminalAction {
    type V = TerminalActionView;

    open spec fn view(&self) -> TerminalActionView {
        match self {
            TerminalAction::Input(event) => TerminalActionView::Input(event@),
            TerminalAction::Resize { columns, rows } => TerminalActionView::Resize {
                columns: *columns,
                rows: *rows,
            },
            TerminalAction::Quit => TerminalActionView::Quit,
        }
    }
}

/// The keysym `xkeysym::Keysym::from_char` assigns to a character.
pub uninterp spec fn keysym_of_char(c: char) -> u32;

/// The X11 keysym of a character (`xkeysym::Keysym::from_char`); Latin-1
/// printable characters map to their own code.
#[verifier::external_body]
fn char_keysym(c: char) -> (keysym: u32)
    ensures
        keysym == keysym_of_char(c),
        (0x20 <= c as u32 <= 0x7e || 0xa0 <= c as u32 <= 0xff) ==> keysym == c as u32,
{
    xkeysym::Keysym::from_char(c).raw()
}

/// The keysym of a terminal key, if it has one.
pub open spec fn keysym_of(code: TerminalKeyCode) -> Option<u32> {
    match code {
        TerminalKeyCode::Char(c) => Some(keysym_of_char(c)),
        TerminalKeyCode::Backspace => Some(XK_BACKSPACE),
        TerminalKeyCode::Enter => Some(XK_RETURN),
        TerminalKeyCode::Left => Some(XK_LEFT),
        TerminalKeyCode::Right => Some(XK_RIGHT),
        TerminalKeyCode::Up => Some(XK_UP),
        TerminalKeyCode::Down => Some(XK_DOWN),
        TerminalKeyCode::Home => Some(XK_HOME),
        TerminalKeyCode::End => Some(XK_END),
        TerminalKeyCode::PageUp => Some(XK_PAGE_UP),
        TerminalKeyCode::PageDown => Some(XK_PAGE_DOWN),
        TerminalKeyCode::Tab => Some(XK_TAB),
        TerminalKeyCode::BackTab => Some(XK_ISO_LEFT_TAB),
        TerminalKeyCode::Delete => Some(XK_DELETE),
        TerminalKeyCode::Insert => Some(XK_INSERT),
        TerminalKeyCode::F(n) => if 1 <= n <= 35 {
            Some((XK_F1 + n - 1) as u32)
        } else {
            None
        },
        TerminalKeyCode::Esc => Some(XK_ESCAPE),
        TerminalKeyCode::CapsLock => Some(XK_CAPS_LOCK),
        TerminalKeyCode::ScrollLock => Some(XK_SCROLL_LOCK),
        TerminalKeyCode::NumLock => Some(XK_NUM_LOCK),
        TerminalKeyCode::PrintScreen => Some(XK_PRINT),
        TerminalKeyCode::Pause => Some(XK_PAUSE),
        TerminalKeyCode::Menu => Some(XK_MENU),
        TerminalKeyCode::KeypadBegin => Some(XK_KP_BEGIN),
        TerminalKeyCode::Null | TerminalKeyCode::Media | TerminalKeyCode::Modifier => None,
    }
}

/// The session's modifier bits for the terminal's: shift, control and alt
/// carry over; super, hyper and meta all become super.
pub open spec fn session_modifiers(bits: u8) -> u8 {
    (if bits & TERM_SHIFT != 0 {
        modifiers::SHIFT
    } else {
        0u8
    }) | (if bits & TERM_CONTROL != 0 {
        modifiers::CONTROL
    } else {
        0u8
    }) | (if bits & TERM_ALT != 0 {
        modifiers::ALT
    } else {
        0u8
    }) | (if bits & (TERM_SUPER | TERM_META | TERM_HYPER) != 0 {
        modifiers::SUPER
    } else {
        0u8
    })
}

pub open spec fn session_button(button: TerminalButton) -> MouseButton {
    match button {
        TerminalButton::Left => MouseButton::Left,
        TerminalButton::Middle => MouseButton::Middle,
        TerminalButton::Right => MouseButton::Right,
    }
}

pub open spec fn key_action(
    code: TerminalKeyCode,
    bits: u8,
    keysym: u32,
    pressed: bool,
) -> TerminalActionView {
    TerminalActionView::Input(
        InputEventView::Key(
            KeyEventView {
                text: match code {
                    TerminalKeyCode::Char(c) => Some(seq![c]),
                    _ => None,
                },
                code: keysym,
                pressed,
                modifiers: session_modifiers(bits),
            },
        ),
    )
}

pub open spec fn mouse_action(
    column: u16,
    row: u16,
    bits: u8,
    kind: MouseKind,
    button: Option<MouseButton>,
) -> TerminalActionView {
    TerminalActionView::Input(
        InputEventView::Mouse(
            MouseEvent {
                x: column as u32,
                y: row as u32,
                button,
                kind,
                modifiers: session_modifiers(bits),
            },
        ),
    )
}

/// The actions for a terminal event. Control-C (not its release) quits.
/// Without the keyboard enhancement the terminal reports presses only, so
/// each press is followed by a synthetic release; scrolling is a wheel
/// press and release; horizontal scrolling and keys without a keysym are
/// dropped.
pub open spec fn terminal_actions(event: TerminalEvent, keyboard_enhanced: bool) -> Seq<
    TerminalActionView,
> {
    match event {
        TerminalEvent::Key { code, modifiers, kind } => if code == TerminalKeyCode::Char('c')
            && modifiers & TERM_CONTROL != 0 && kind != TerminalKeyKind::Release {
            seq![TerminalActionView::Quit]
        } else {
            match keysym_of(code) {
                None => Seq::empty(),
                Some(keysym) => if kind == TerminalKeyKind::Release {
                    seq![key_action(code, modifiers, keysym, false)]
                } else if keyboard_enhanced {
                    seq![key_action(code, modifiers, keysym, true)]
                } else {
                    seq![
                        key_action(code, modifiers, keysym, true),
                        key_action(code, modifiers, keysym, false),
                    ]
                },
            }
        },
        TerminalEvent::Mouse { kind, column, row, modifiers } => match kind {
            TerminalMouseKind::Down(button) => seq![
                mouse_action(column, row, modifiers, MouseKind::Press, Some(session_button(button))),
            ],
            TerminalMouseKind::Up(button) => seq![
                mouse_action(
                    column,
                    row,
                    modifiers,
                    MouseKind::Release,
                    Some(session_button(button)),
                ),
            ],
            TerminalMouseKind::Drag(button) => seq![
                mouse_action(column, row, modifiers, MouseKind::Move, Some(session_button(button))),
            ],
            TerminalMouseKind::Moved => seq![
                mouse_action(column, row, modifiers, MouseKind::Move, None),
            ],
            TerminalMouseKind::ScrollUp => seq![
                mouse_action(column, row, modifiers, MouseKind::Press, Some(MouseButton::WheelUp)),
                mouse_action(column, row, modifiers, MouseKind::Release, Some(MouseButton::WheelUp)),
            ],
            TerminalMouseKind::ScrollDown => seq![
                mouse_action(column, row, modifiers, MouseKind::Press, Some(MouseButton::WheelDown)),
                mouse_action(
                    column,
                    row,
                    modifiers,
                    MouseKind::Release,
                    Some(MouseButton::WheelDown),
                ),
            ],
            TerminalMouseKind::ScrollLeft | TerminalMouseKind::ScrollRight => Seq::empty(),
        },
        TerminalEvent::Resize(columns, rows) => seq![TerminalActionView::Resize { columns, rows }],
        TerminalEvent::Other => Seq::empty(),
    }
}

/// Each terminal modifier reaches the session as its own bit: shift as
/// shift, control as control, alt as alt, and any of super, hyper and meta
/// as super; no other bit is set.
pub proof fn lemma_modifier_bits(bits: u8)
    ensures
        (session_modifiers(bits) & 1 != 0) == (bits & 0x01 != 0),
        (session_modifiers(bits) & 2 != 0) == (bits & 0x02 != 0),
        (session_modifiers(bits) & 4 != 0) == (bits & 0x04 != 0),
        (session_modifiers(bits) & 8 != 0) == (bits & 0x38 != 0),
        session_modifiers(bits) & 0xf0 == 0,
{
    let s: u8 = if bits & 0x01 != 0 { 1 } else { 0 };
    let c: u8 = if bits & 0x02 != 0 { 2 } else { 0 };
    let a: u8 = if bits & 0x04 != 0 { 4 } else { 0 };
    let p: u8 = if bits & 0x38 != 0 { 8 } else { 0 };
    assert(TERM_SUPER | TERM_META | TERM_HYPER == 0x38u8) by (bit_vector);
    assert(session_modifiers(bits) == s | c | a | p);
    assert(((s | c | a | p) & 1 != 0) == (bits & 0x01 != 0)) by (bit_vector)
        requires
            s == (if bits & 0x01 != 0 { 1u8 } else { 0u8 }),
            c == (if bits & 0x02 != 0 { 2u8 } else { 0u8 }),
            a == (if bits & 0x04 != 0 { 4u8 } else { 0u8 }),
            p == (if bits & 0x38 != 0 { 8u8 } else { 0u8 }),
    ;
    assert(((s | c | a | p) & 2 != 0) == (bits & 0x02 != 0)) by (bit_vector)
        requires
            s == (if bits & 0x01 != 0 { 1u8 } else { 0u8 }),
            c == (if bits & 0x02 != 0 { 2u8 } else { 0u8 }),
            a == (if bits & 0x04 != 0 { 4u8 } else { 0u8 }),
            p == (if bits & 0x38 != 0 { 8u8 } else { 0u8 }),
    ;
    assert(((s | c | a | p) & 4 != 0) == (bits & 0x04 != 0)) by (bit_vector)
        requires
            s == (if bits & 0x01 != 0 { 1u8 } else { 0u8 }),
            c == (if bits & 0x02 != 0 { 2u8 } else { 0u8 }),
            a == (if bits & 0x04 != 0 { 4u8 } else { 0u8 }),
            p == (if bits & 0x38 != 0 { 8u8 } else { 0u8 }),
    ;
    assert(((s | c | a | p) & 8 != 0) == (bits & 0x38 != 0)) by (bit_vector)
        requires
            s == (if bits & 0x01 != 0 { 1u8 } else { 0u8 }),
            c == (if bits & 0x02 != 0 { 2u8 } else { 0u8 }),
            a == (if bits & 0x04 != 0 { 4u8 } else { 0u8 }),
            p == (if bits & 0x38 != 0 { 8u8 } else { 0u8 }),
    ;
    assert((s | c | a | p) & 0xf0 == 0) by (bit_vector)
        requires
            s == (if bits & 0x01 != 0 { 1u8 } else { 0u8 }),
            c == (if bits & 0x02 != 0 { 2u8 } else { 0u8 }),
            a == (if bits & 0x04 != 0 { 4u8 } else { 0u8 }),
            p == (if bits & 0x38 != 0 { 8u8 } else { 0u8 }),
    ;
}

/// Scrolling keeps its direction: a scroll up is a press and a release of
/// the wheel-up button, a scroll down of the wheel-down button, both at the
/// scrolled cell; horizontal scrolling sends nothing.
pub proof fn lemma_scroll_direction(column: u16, row: u16, bits: u8, keyboard_enhanced: bool)
    ensures
        ({
            let up = terminal_actions(
                TerminalEvent::Mouse { kind: TerminalMouseKind::ScrollUp, column, row, modifiers: bits },
                keyboard_enhanced,
            );
            &&& up.len() == 2
            &&& up[0] matches TerminalActionView::Input(InputEventView::Mouse(m)) && m.button == Some(
                MouseButton::WheelUp,
            ) && m.kind == MouseKind::Press && m.x == column && m.y == row
            &&& up[1] matches TerminalActionView::Input(InputEventView::Mouse(m)) && m.button == Some(
                MouseButton::WheelUp,
            ) && m.kind == MouseKind::Release && m.x == column && m.y == row
        }),
        ({
            let down = terminal_actions(
                TerminalEvent::Mouse { kind: TerminalMouseKind::ScrollDown, column, row, modifiers: bits },
                keyboard_enhanced,
            );
            &&& down.len() == 2
            &&& down[0] matches TerminalActionView::Input(InputEventView::Mouse(m)) && m.button
                == Some(MouseButton::WheelDown) && m.kind == MouseKind::Press && m.x == column && m.y
                == row
            &&& down[1] matches TerminalActionView::Input(InputEventView::Mouse(m)) && m.button
                == Some(MouseButton::WheelDown) && m.kind == MouseKind::Release && m.x == column
                && m.y == row
        }),
        terminal_actions(
            TerminalEvent::Mouse { kind: TerminalMouseKind::ScrollLeft, column, row, modifiers: bits },
            keyboard_enhanced,
        ).len() == 0,
        terminal_actions(
            TerminalEvent::Mouse { kind: TerminalMouseKind::ScrollRight, column, row, modifiers: bits },
            keyboard_enhanced,
        ).len() == 0,
{
}

/// Control-C quits on press and repeat; a terminal resize is passed on as
/// it is; a button press, release or drag is that same button at the cell,
/// and a plain move carries no button.
pub proof fn lemma_quit_resize_and_buttons(
    bits: u8,
    kind: TerminalKeyKind,
    column: u16,
    row: u16,
    button: TerminalButton,
    keyboard_enhanced: bool,
)
    ensures
        bits & 0x02 != 0 && kind != TerminalKeyKind::Release ==> terminal_actions(
            TerminalEvent::Key { code: TerminalKeyCode::Char('c'), modifiers: bits, kind },
            keyboard_enhanced,
        ) == seq![TerminalActionView::Quit],
        terminal_actions(TerminalEvent::Resize(column, row), keyboard_enhanced) == seq![
            TerminalActionView::Resize { columns: column, rows: row },
        ],
        ({
            let press = terminal_actions(
                TerminalEvent::Mouse {
                    kind: TerminalMouseKind::Down(button),
                    column,
                    row,
                    modifiers: bits,
                },
                keyboard_enhanced,
            );
            &&& press.len() == 1
            &&& press[0] matches TerminalActionView::Input(InputEventView::Mouse(m)) && m.kind
                == MouseKind::Press && m.x == column && m.y == row && m.button == Some(
                match button {
                    TerminalButton::Left => MouseButton::Left,
                    TerminalButton::Middle => MouseButton::Middle,
                    TerminalButton::Right => MouseButton::Right,
                },
            )
        }),
        ({
            let release = terminal_actions(
                TerminalEvent::Mouse { kind: TerminalMouseKind::Up(button), column, row, modifiers: bits },
                keyboard_enhanced,
            );
            &&& release.len() == 1
            &&& release[0] matches TerminalActionView::Input(InputEventView::Mouse(m)) && m.kind
                == MouseKind::Release && m.x == column && m.y == row && m.button == Some(
                match button {
                    TerminalButton::Left => MouseButton::Left,
                    TerminalButton::Middle => MouseButton::Middle,
                    TerminalButton::Right => MouseButton::Right,
                },
            )
        }),
        ({
            let moved = terminal_actions(
                TerminalEvent::Mouse { kind: TerminalMouseKind::Moved, column, row, modifiers: bits },
                keyboard_enhanced,
            );
            &&& moved.len() == 1
            &&& moved[0] matches TerminalActionView::Input(InputEventView::Mouse(m)) && m.kind
                == MouseKind::Move && m.x == column && m.y == row && m.button is None
        }),
{
    assert(TERM_CONTROL == 0x02u8);
}

/// A key with a keysym (other than Control-C) becomes that key: a release is
/// one release; a press or repeat is one press with the keyboard
/// enhancement, and otherwise a press followed by a synthetic release. Each
/// carries the keysym, the character typed for a character key, and the
/// session's modifiers. A key without a keysym sends nothing.
pub proof fn lemma_key_events(
    code: TerminalKeyCode,
    bits: u8,
    kind: TerminalKeyKind,
    keyboard_enhanced: bool,
)
    requires
        !(code == TerminalKeyCode::Char('c') && bits & 0x02 != 0 && kind != TerminalKeyKind::Release),
    ensures
        ({
            let actions = terminal_actions(
                TerminalEvent::Key { code, modifiers: bits, kind },
                keyboard_enhanced,
            );
            match keysym_of(code) {
                None => actions.len() == 0,
                Some(keysym) => {
                    &&& actions.len() == (if kind == TerminalKeyKind::Release || keyboard_enhanced {
                        1int
                    } else {
                        2int
                    })
                    &&& forall|i: int|
                        0 <= i < actions.len() ==> (#[trigger] actions[i] matches TerminalActionView::Input(
                            InputEventView::Key(k),
                        ) && k.code == keysym && k.modifiers == session_modifiers(bits) && k.pressed
                            == (i == 0 && kind != TerminalKeyKind::Release) && k.text == match code {
                            TerminalKeyCode::Char(c) => Some(seq![c]),
                            _ => None,
                        })
                },
            }
        }),
{
    assert(TERM_CONTROL == 0x02u8);
}

/// The X11 keysyms of the named keys (keysymdef.h): editing and movement
/// keys, function keys F1 to F35 in a row from 0xffbe, and nothing for
/// other function keys, media and modifier keys.
pub proof fn lemma_named_keysyms(n: u8)
    ensures
        keysym_of(TerminalKeyCode::Backspace) == Some(0xff08u32),
        keysym_of(TerminalKeyCode::Tab) == Some(0xff09u32),
        keysym_of(TerminalKeyCode::Enter) == Some(0xff0du32),
        keysym_of(TerminalKeyCode::Pause) == Some(0xff13u32),
        keysym_of(TerminalKeyCode::ScrollLock) == Some(0xff14u32),
        keysym_of(TerminalKeyCode::Esc) == Some(0xff1bu32),
        keysym_of(TerminalKeyCode::Home) == Some(0xff50u32),
        keysym_of(TerminalKeyCode::Left) == Some(0xff51u32),
        keysym_of(TerminalKeyCode::Up) == Some(0xff52u32),
        keysym_of(TerminalKeyCode::Right) == Some(0xff53u32),
        keysym_of(TerminalKeyCode::Down) == Some(0xff54u32),
        keysym_of(TerminalKeyCode::PageUp) == Some(0xff55u32),
        keysym_of(TerminalKeyCode::PageDown) == Some(0xff56u32),
        keysym_of(TerminalKeyCode::End) == Some(0xff57u32),
        keysym_of(TerminalKeyCode::PrintScreen) == Some(0xff61u32),
        keysym_of(TerminalKeyCode::Insert) == Some(0xff63u32),
        keysym_of(TerminalKeyCode::Menu) == Some(0xff67u32),
        keysym_of(TerminalKeyCode::NumLock) == Some(0xff7fu32),
        keysym_of(TerminalKeyCode::KeypadBegin) == Some(0xff9du32),
        keysym_of(TerminalKeyCode::BackTab) == Some(0xfe20u32),
        keysym_of(TerminalKeyCode::CapsLock) == Some(0xffe5u32),
        keysym_of(TerminalKeyCode::Delete) == Some(0xffffu32),
        1 <= n <= 35 ==> keysym_of(TerminalKeyCode::F(n)) == Some((0xffbe + n - 1) as u32),
        (n == 0 || n > 35) ==> keysym_of(TerminalKeyCode::F(n)) is None,
        keysym_of(TerminalKeyCode::Null) is None,
        keysym_of(TerminalKeyCode::Media) is None,
        keysym_of(TerminalKeyCode::Modifier) is None,
{
}

/// The session's modifier bits for the terminal's.
pub fn convert_modifiers(bits: u8) -> (result: u8)
    ensures
        result == session_modifiers(bits),
        (result & 1 != 0) == (bits & 0x01 != 0),
        (result & 2 != 0) == (bits & 0x02 != 0),
        (result & 4 != 0) == (bits & 0x04 != 0),
        (result & 8 != 0) == (bits & 0x38 != 0),
        result & 0xf0 == 0,
{
    proof {
        lemma_modifier_bits(bits);
    }
    let shift = if bits & TERM_SHIFT != 0 {
        modifiers::SHIFT
    } else {
        0u8
    };
    let control = if bits & TERM_CONTROL != 0 {
        modifiers::CONTROL
    } else {
        0u8
    };
    let alt = if bits & TERM_ALT != 0 {
        modifiers::ALT
    } else {
        0u8
    };
    let logo = if bits & (TERM_SUPER | TERM_META | TERM_HYPER) != 0 {
        modifiers::SUPER
    } else {
        0u8
    };
    shift | control | alt | logo
}

pub fn convert_button(button: TerminalButton) -> (result: MouseButton)
    ensures
        result == session_button(button),
{
    match button {
        TerminalButton::Left => MouseButton::Left,
        TerminalButton::Middle => MouseButton::Middle,
        TerminalButton::Right => MouseButton::Right,
    }
}

/// The keysyms of the named keys, read from `xkeysym::key`, in this order:
/// BackSpace, Return, Left, Right, Up, Down, Home, End, Page_Up, Page_Down,
/// Tab, ISO_Left_Tab, Delete, Insert, F1, Escape, Caps_Lock, Scroll_Lock,
/// Num_Lock, Print, Pause, Menu, KP_Begin. The contract states the values
/// that xkeysym 0.2 defines for them (X11 keysymdef.h).
#[verifier::external_body]
fn named_keysyms() -> (keys: [u32; 23])
    ensures
        keys@ == seq![
        XK_BACKSPACE,
        XK_RETURN,
        XK_LEFT,
        XK_RIGHT,
        XK_UP,
        XK_DOWN,
        XK_HOME,
        XK_END,
        XK_PAGE_UP,
        XK_PAGE_DOWN,
        XK_TAB,
        XK_ISO_LEFT_TAB,
        XK_DELETE,
        XK_INSERT,
        XK_F1,
        XK_ESCAPE,
        XK_CAPS_LOCK,
        XK_SCROLL_LOCK,
        XK_NUM_LOCK,
        XK_PRINT,
        XK_PAUSE,
        XK_MENU,
        XK_KP_BEGIN,
    ],
{
    [
        key::BackSpace, key::Return, key::Left, key::Right,
        key::Up, key::Down, key::Home, key::End,
        key::Page_Up, key::Page_Down, key::Tab, key::ISO_Left_Tab,
        key::Delete, key::Insert, key::F1, key::Escape,
        key::Caps_Lock, key::Scroll_Lock, key::Num_Lock, key::Print,
        key::Pause, key::Menu, key::KP_Begin,
    ]
}

/// The keysym of a terminal key, if it has one.
pub fn keycode_to_keysym(code: TerminalKeyCode) -> (keysym: Option<u32>)
    ensures
        keysym == keysym_of(code),
{
    let keys = named_keysyms();
    let raw = match code {
        TerminalKeyCode::Char(c) => char_keysym(c),
        TerminalKeyCode::Backspace => keys[0],
        TerminalKeyCode::Enter => keys[1],
        TerminalKeyCode::Left => keys[2],
        TerminalKeyCode::Right => keys[3],
        TerminalKeyCode::Up => keys[4],
        TerminalKeyCode::Down => keys[5],
        TerminalKeyCode::Home => keys[6],
        TerminalKeyCode::End => keys[7],
        TerminalKeyCode::PageUp => keys[8],
        TerminalKeyCode::PageDown => keys[9],
        TerminalKeyCode::Tab => keys[10],
        TerminalKeyCode::BackTab => keys[11],
        TerminalKeyCode::Delete => keys[12],
        TerminalKeyCode::Insert => keys[13],
        TerminalKeyCode::F(number) => {
            if 1 <= number && number <= 35 {
                keys[14] + (number - 1) as u32
            } else {
                return None;
            }
        },
        TerminalKeyCode::Esc => keys[15],
        TerminalKeyCode::CapsLock => keys[16],
        TerminalKeyCode::ScrollLock => keys[17],
        TerminalKeyCode::NumLock => keys[18],
        TerminalKeyCode::PrintScreen => keys[19],
        TerminalKeyCode::Pause => keys[20],
        TerminalKeyCode::Menu => keys[21],
        TerminalKeyCode::KeypadBegin => keys[22],
        TerminalKeyCode::Null | TerminalKeyCode::Media | TerminalKeyCode::Modifier => {
            return None;
        },
    };
    Some(raw)
}

fn make_key(code: TerminalKeyCode, bits: u8, keysym: u32, pressed: bool) -> (action:
    TerminalAction)
    ensures
        action@ == key_action(code, bits, keysym, pressed),
{
    let text = match code {
        TerminalKeyCode::Char(c) => {
            let mut s = String::new();
            push_char(&mut s, c);
            Some(s)
        },
        _ => None,
    };
    let action = TerminalAction::Input(
        InputEvent::Key(KeyEvent { text, code: keysym, pressed, modifiers: convert_modifiers(bits) }),
    );
    proof {
        match code {
            TerminalKeyCode::Char(c) => {
                assert(Seq::<char>::empty().push(c) =~= seq![c]);
            },
            _ => {},
        }
    }
    action
}

fn make_mouse(
    column: u16,
    row: u16,
    bits: u8,
    kind: MouseKind,
    button: Option<MouseButton>,
) -> (action: TerminalAction)
    ensures
        action@ == mouse_action(column, row, bits, kind, button),
{
    TerminalAction::Input(
        InputEvent::Mouse(
            MouseEvent {
                x: column as u32,
                y: row as u32,
                button,
                kind,
                modifiers: convert_modifiers(bits),
            },
        ),
    )
}

pub open spec fn actions_view(actions: Seq<TerminalAction>) -> Seq<TerminalActionView> {
    actions.map_values(|action: TerminalAction| action@)
}

/// The session actions for one terminal event.
pub fn decode_terminal_event(event: TerminalEvent, keyboard_enhanced: bool) -> (actions: Vec<
    TerminalAction,
>)
    ensures
        actions_view(actions@) == terminal_actions(event, keyboard_enhanced),
        event matches TerminalEvent::Mouse { kind: TerminalMouseKind::ScrollUp, column, row, .. }
            ==> actions@.len() == 2 && (actions@[0] matches TerminalAction::Input(
            InputEvent::Mouse(m),
        ) && m.button == Some(MouseButton::WheelUp) && m.kind == MouseKind::Press && m.x == column
            && m.y == row) && (actions@[1] matches TerminalAction::Input(InputEvent::Mouse(m))
            && m.button == Some(MouseButton::WheelUp) && m.kind == MouseKind::Release && m.x
            == column && m.y == row),
        event matches TerminalEvent::Mouse { kind: TerminalMouseKind::ScrollDown, column, row, .. }
            ==> actions@.len() == 2 && (actions@[0] matches TerminalAction::Input(
            InputEvent::Mouse(m),
        ) && m.button == Some(MouseButton::WheelDown) && m.kind == MouseKind::Press && m.x
            == column && m.y == row) && (actions@[1] matches TerminalAction::Input(
            InputEvent::Mouse(m),
        ) && m.button == Some(MouseButton::WheelDown) && m.kind == MouseKind::Release && m.x
            == column && m.y == row),
{
    let actions = match event {
        TerminalEvent::Key { code, modifiers, kind } => {
            if code == TerminalKeyCode::Char('c') && modifiers & TERM_CONTROL != 0 && kind
                != TerminalKeyKind::Release {
                vec![TerminalAction::Quit]
            } else {
                match keycode_to_keysym(code) {
                    None => Vec::new(),
                    Some(keysym) => {
                        if kind == TerminalKeyKind::Release {
                            vec![make_key(code, modifiers, keysym, false)]
                        } else if keyboard_enhanced {
                            vec![make_key(code, modifiers, keysym, true)]
                        } else {
                            vec![
                                make_key(code, modifiers, keysym, true),
                                make_key(code, modifiers, keysym, false),
                            ]
                        }
                    },
                }
            }
        },
        TerminalEvent::Mouse { kind, column, row, modifiers } => match kind {
            TerminalMouseKind::Down(button) => vec![
                make_mouse(column, row, modifiers, MouseKind::Press, Some(convert_button(button))),
            ],
            TerminalMouseKind::Up(button) => vec![
                make_mouse(column, row, modifiers, MouseKind::Release, Some(convert_button(button))),
            ],
            TerminalMouseKind::Drag(button) => vec![
                make_mouse(column, row, modifiers, MouseKind::Move, Some(convert_button(button))),
            ],
            TerminalMouseKind::Moved => vec![
                make_mouse(column, row, modifiers, MouseKind::Move, None),
            ],
            TerminalMouseKind::ScrollUp => vec![
                make_mouse(column, row, modifiers, MouseKind::Press, Some(MouseButton::WheelUp)),
                make_mouse(column, row, modifiers, MouseKind::Release, Some(MouseButton::WheelUp)),
            ],
            TerminalMouseKind::ScrollDown => vec![
                make_mouse(column, row, modifiers, MouseKind::Press, Some(MouseButton::WheelDown)),
                make_mouse(column, row, modifiers, MouseKind::Release, Some(MouseButton::WheelDown)),
            ],
            TerminalMouseKind::ScrollLeft | TerminalMouseKind::ScrollRight => Vec::new(),
        },
        TerminalEvent::Resize(columns, rows) => vec![TerminalAction::Resize { columns, rows }],
        TerminalEvent::Other => Vec::new(),
    };
    assert(actions_view(actions@) =~= terminal_actions(event, keyboard_enhanced));
    actions
}

} // verus!
