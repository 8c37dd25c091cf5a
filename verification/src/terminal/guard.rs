//! The terminal modes that a session takes over and gives back. The steps
//! are carried out by the terminal library outside the library.
use vstd::prelude::*;

verus! {

/// One change of terminal mode.
#[derive(Debug, Clone, Copy, PartialEq, Eq)]
pub enum TerminalStep {
    EnableRawMode,
    DisableRawMode,
    EnterAlternateScreen,
    LeaveAlternateScreen,
    EnableMouseCapture,
    DisableMouseCapture,
    HideCursor,
    ShowCursor,
    ClearScreen,
    MoveToOrigin,
    PushKeyboardEnhancement,
    PopKeyboardEnhancement,
    Flush,
}

/// The step that undoes `step`, for the steps that turn a mode on.
pub open spec fn undo_of(step: TerminalStep) -> Option<TerminalStep> {
    match step {
        TerminalStep::EnableRawMode => Some(TerminalStep::DisableRawMode),
        TerminalStep::EnterAlternateScreen => Some(TerminalStep::LeaveAlternateScreen),
        TerminalStep::EnableMouseCapture => Some(TerminalStep::DisableMouseCapture),
        TerminalStep::HideCursor => Some(TerminalStep::ShowCursor),
        TerminalStep::PushKeyboardEnhancement => Some(TerminalStep::PopKeyboardEnhancement),
        _ => None,
    }
}

/// Taking the terminal over: raw mode, the alternate screen, mouse capture,
/// a hidden cursor on a cleared screen at the origin, then (when the
/// terminal reports key events fully) the keyboard enhancement flags.
pub open spec fn enter_sequence(keyboard_enhanced: bool) -> Seq<TerminalStep> {
    let push: Seq<TerminalStep> = if keyboard_enhanced {
        seq![TerminalStep::PushKeyboardEnhancement]
    } else {
        Seq::empty()
    };
    seq![
        TerminalStep::EnableRawMode,
        TerminalStep::EnterAlternateScreen,
        TerminalStep::EnableMouseCapture,
        TerminalStep::HideCursor,
        TerminalStep::ClearScreen,
        TerminalStep::MoveToOrigin,
    ] + push + seq![TerminalStep::Flush]
}

/// Undoing a failed take-over: mouse capture off, cursor shown, main screen,
/// then raw mode off.
pub open spec fn abort_sequence() -> Seq<TerminalStep> {
    seq![
        TerminalStep::DisableMouseCapture,
        TerminalStep::ShowCursor,
        TerminalStep::LeaveAlternateScreen,
        TerminalStep::Flush,
        TerminalStep::DisableRawMode,
    ]
}

/// Giving the terminal back: the keyboard flags first when they were
/// pushed, then as for a failed take-over.
pub open spec fn leave_sequence(keyboard_enhanced: bool) -> Seq<TerminalStep> {
    let pop: Seq<TerminalStep> = if keyboard_enhanced {
        seq![TerminalStep::PopKeyboardEnhancement]
    } else {
        Seq::empty()
    };
    pop + abort_sequence()
}

fn push_step(steps: &mut Vec<TerminalStep>, step: TerminalStep)
    ensures
        final(steps)@ == old(steps)@.push(step),
{
    steps.push(step);
}

/// Holds the terminal while a session runs.
pub struct TerminalGuard {
    keyboard_enhanced: bool,
}

impl TerminalGuard {
    pub closed spec fn enhanced(&self) -> bool {
        self.keyboard_enhanced
    }

    /// A guard for a terminal whose keyboard is (or is not) enhanced.
    pub fn new(keyboard_enhanced: bool) -> (guard: Self)
        ensures
            guard.enhanced() == keyboard_enhanced,
    {
        TerminalGuard { keyboard_enhanced }
    }

    /// Whether the keyboard enhancement flags are pushed.
    pub fn keyboard_enhanced(&self) -> (enhanced: bool)
        ensures
            enhanced == self.enhanced(),
    {
        self.keyboard_enhanced
    }

    /// The steps that take the terminal over.
    pub fn enter_steps(&self) -> (steps: Vec<TerminalStep>)
        ensures
            steps@ == enter_sequence(self.enhanced()),
    {
        let mut steps: Vec<TerminalStep> = Vec::new();
        push_step(&mut steps, TerminalStep::EnableRawMode);
        push_step(&mut steps, TerminalStep::EnterAlternateScreen);
        push_step(&mut steps, TerminalStep::EnableMouseCapture);
        push_step(&mut steps, TerminalStep::HideCursor);
        push_step(&mut steps, TerminalStep::ClearScreen);
        push_step(&mut steps, TerminalStep::MoveToOrigin);
        if self.keyboard_enhanced {
            push_step(&mut steps, TerminalStep::PushKeyboardEnhancement);
        }
        push_step(&mut steps, TerminalStep::Flush);
        assert(steps@ =~= enter_sequence(self.enhanced()));
        steps
    }

    /// The steps that undo a take-over that failed part-way.
    pub fn abort_steps() -> (steps: Vec<TerminalStep>)
        ensures
            steps@ == abort_sequence(),
    {
        let mut steps: Vec<TerminalStep> = Vec::new();
        push_step(&mut steps, TerminalStep::DisableMouseCapture);
        push_step(&mut steps, TerminalStep::ShowCursor);
        push_step(&mut steps, TerminalStep::LeaveAlternateScreen);
        push_step(&mut steps, TerminalStep::Flush);
        push_step(&mut steps, TerminalStep::DisableRawMode);
        assert(steps@ =~= abort_sequence());
        steps
    }

    /// The steps that give the terminal back.
    pub fn leave_steps(&self) -> (steps: Vec<TerminalStep>)
        ensures
            steps@ == leave_sequence(self.enhanced()),
    {
        let mut steps: Vec<TerminalStep> = Vec::new();
        if self.keyboard_enhanced {
            push_step(&mut steps, TerminalStep::PopKeyboardEnhancement);
        }
        push_step(&mut steps, TerminalStep::DisableMouseCapture);
        push_step(&mut steps, TerminalStep::ShowCursor);
        push_step(&mut steps, TerminalStep::LeaveAlternateScreen);
        push_step(&mut steps, TerminalStep::Flush);
        push_step(&mut steps, TerminalStep::DisableRawMode);
        assert(steps@ =~= leave_sequence(self.enhanced()));
        steps
    }
}

/// Every mode that taking the terminal over turns on, giving it back turns
/// off, and only after the keyboard flags are popped.
pub proof fn lemma_leave_undoes_enter(keyboard_enhanced: bool, i: int)
    requires
        0 <= i < enter_sequence(keyboard_enhanced).len(),
        undo_of(enter_sequence(keyboard_enhanced)[i]) is Some,
    ensures
        leave_sequence(keyboard_enhanced).contains(
            undo_of(enter_sequence(keyboard_enhanced)[i])->0,
        ),
{
    let enter = enter_sequence(keyboard_enhanced);
    let leave = leave_sequence(keyboard_enhanced);
    let offset: int = if keyboard_enhanced {
        1
    } else {
        0
    };
    if enter[i] == TerminalStep::EnableRawMode {
        assert(leave[offset + 4] == TerminalStep::DisableRawMode);
    } else if enter[i] == TerminalStep::EnterAlternateScreen {
        assert(leave[offset + 2] == TerminalStep::LeaveAlternateScreen);
    } else if enter[i] == TerminalStep::EnableMouseCapture {
        assert(leave[offset] == TerminalStep::DisableMouseCapture);
    } else if enter[i] == TerminalStep::HideCursor {
        assert(leave[offset + 1] == TerminalStep::ShowCursor);
    } else {
        assert(enter[i] == TerminalStep::PushKeyboardEnhancement);
        assert(leave[0] == TerminalStep::PopKeyboardEnhancement);
    }
}

/// A failed take-over turns off every mode that a complete one turns on,
/// except the keyboard flags, which are pushed last.
pub proof fn lemma_abort_undoes_enter(i: int)
    requires
        0 <= i < enter_sequence(false).len(),
        undo_of(enter_sequence(false)[i]) is Some,
    ensures
        abort_sequence().contains(undo_of(enter_sequence(false)[i])->0),
{
    lemma_leave_undoes_enter(false, i);
    assert(leave_sequence(false) =~= abort_sequence());
}

} // verus!
