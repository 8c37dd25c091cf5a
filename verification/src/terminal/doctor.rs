//! The `doctor` report on the terminal's suitability for Kitty graphics.
use vstd::prelude::*;

use crate::text::{ascii_lowercase, push_str, str_eq, to_ascii_lowercase};

verus! {

/// What `doctor` found out about the terminal.
#[derive(Debug, Clone, PartialEq, Eq)]
pub struct DoctorReport {
    pub stdout_is_terminal: bool,
    pub term: Option<String>,
    pub terminal_program: Option<String>,
    pub kitty_graphics_likely: bool,
}

pub struct DoctorReportView {
    pub stdout_is_terminal: bool,
    pub term: Option<Seq<char>>,
    pub terminal_program: Option<Seq<char>>,
    pub kitty_graphics_likely: bool,
}

pub open spec fn option_view(value: Option<String>) -> Option<Seq<char>> {
    match value {
        Some(text) => Some(text@),
        None => None,
    }
}

impl View for DoctorReport {
    type V = DoctorReportView;

    open spec fn view(&self) -> DoctorReportView {
        DoctorReportView {
            stdout_is_terminal: self.stdout_is_terminal,
            term: option_view(self.term),
            terminal_program: option_view(self.terminal_program),
            kitty_graphics_likely: self.kitty_graphics_likely,
        }
    }
}

/// Kitty graphics are likely when running inside Kitty (a Kitty window id
/// is set or `TERM` is `xterm-kitty`) or when the terminal program is
/// Ghostty or WezTerm, in any letter case.
pub open spec fn kitty_likely(
    kitty_window: bool,
    term: Option<Seq<char>>,
    terminal_program: Option<Seq<char>>,
) -> bool {
    kitty_window || term == Some("xterm-kitty"@) || match terminal_program {
        Some(program) => ascii_lowercase(program) == "ghostty"@ || ascii_lowercase(program)
            == "wezterm"@,
        None => false,
    }
}

/// Ghostty and WezTerm, in any letter case, make Kitty graphics likely
/// whatever `TERM` says; so does a Kitty window. Another program, outside a
/// Kitty window and with `TERM` other than `xterm-kitty`, does not.
pub proof fn lemma_kitty_terminals(kitty_window: bool, term: Option<Seq<char>>, program: Seq<char>)
    ensures
        ascii_lowercase(program) == "ghostty"@ ==> kitty_likely(kitty_window, term, Some(program)),
        ascii_lowercase(program) == "wezterm"@ ==> kitty_likely(kitty_window, term, Some(program)),
        program == "ghostty"@ || program == "Ghostty"@ || program == "wezterm"@ || program
            == "WezTerm"@ ==> kitty_likely(kitty_window, term, Some(program)),
        kitty_window ==> kitty_likely(kitty_window, term, Some(program)),
        !kitty_window && term != Some("xterm-kitty"@) && ascii_lowercase(program) != "ghostty"@
            && ascii_lowercase(program) != "wezterm"@ ==> !kitty_likely(
            kitty_window,
            term,
            Some(program),
        ),
{
    reveal_strlit("ghostty");
    reveal_strlit("Ghostty");
    reveal_strlit("wezterm");
    reveal_strlit("WezTerm");
    if program == "Ghostty"@ || program == "ghostty"@ {
        assert(ascii_lowercase(program) =~= "ghostty"@);
    }
    if program == "WezTerm"@ || program == "wezterm"@ {
        assert(ascii_lowercase(program) =~= "wezterm"@);
    }
}

pub open spec fn yes_no_text(value: bool) -> Seq<char> {
    if value {
        "yes"@
    } else {
        "no"@
    }
}

/// The text of a report.
pub open spec fn doctor_text(report: DoctorReportView) -> Seq<char> {
    "microbox doctor\n"@ + "  stdout is a TTY       "@ + yes_no_text(report.stdout_is_terminal)
        + "\n"@ + "  TERM                  "@ + match report.term {
        Some(term) => term,
        None => "(unset)"@,
    } + "\n"@ + "  terminal program      "@ + match report.terminal_program {
        Some(program) => program,
        None => "(unknown)"@,
    } + "\n"@ + "  Kitty graphics likely "@ + yes_no_text(report.kitty_graphics_likely) + "\n"@
        + if !report.stdout_is_terminal {
        "  result                FAIL (stdout is redirected)\n"@
    } else if report.kitty_graphics_likely {
        "  result                READY for `microbox demo`\n"@
    } else {
        "  result                UNKNOWN (run `microbox demo` to probe visually)\n"@
    }
}

/// `"yes"` or `"no"`.
pub fn yes_no(value: bool) -> (text: &'static str)
    ensures
        text@ == yes_no_text(value),
{
    if value {
        "yes"
    } else {
        "no"
    }
}

impl DoctorReport {
    /// A report from what the environment says: whether stdout is a
    /// terminal, `TERM`, `TERM_PROGRAM`, and whether `KITTY_WINDOW_ID` is set.
    pub fn from_environment(
        stdout_is_terminal: bool,
        term: Option<String>,
        terminal_program: Option<String>,
        kitty_window: bool,
    ) -> (report: Self)
        ensures
            report@.stdout_is_terminal == stdout_is_terminal,
            report@.term == option_view(term),
            report@.terminal_program == option_view(terminal_program),
            report@.kitty_graphics_likely == kitty_likely(
                kitty_window,
                option_view(term),
                option_view(terminal_program),
            ),
            terminal_program matches Some(p) && (ascii_lowercase(p@) == "ghostty"@
                || ascii_lowercase(p@) == "wezterm"@) ==> report.kitty_graphics_likely,
            kitty_window ==> report.kitty_graphics_likely,
            term matches Some(t) && t@ == "xterm-kitty"@ ==> report.kitty_graphics_likely,
            !kitty_window && !(term matches Some(t) && t@ == "xterm-kitty"@) && !(
            terminal_program matches Some(p) && (ascii_lowercase(p@) == "ghostty"@
                || ascii_lowercase(p@) == "wezterm"@)) ==> !report.kitty_graphics_likely,
    {
        proof {
            if let Some(p) = option_view(terminal_program) {
                lemma_kitty_terminals(kitty_window, option_view(term), p);
            }
        }
        let kitty_term = match &term {
            Some(value) => str_eq(value.as_str(), "xterm-kitty"),
            None => false,
        };
        let known_program = match &terminal_program {
            Some(value) => {
                let lower = to_ascii_lowercase(value.as_str());
                str_eq(lower.as_str(), "ghostty") || str_eq(lower.as_str(), "wezterm")
            },
            None => false,
        };
        DoctorReport {
            stdout_is_terminal,
            term,
            terminal_program,
            kitty_graphics_likely: kitty_window || kitty_term || known_program,
        }
    }

    /// The report as printed by `doctor`.
    pub fn report_text(&self) -> (text: String)
        ensures
            text@ == doctor_text(self@),
    {
        let mut text = String::new();
        push_str(&mut text, "microbox doctor\n");
        push_str(&mut text, "  stdout is a TTY       ");
        push_str(&mut text, yes_no(self.stdout_is_terminal));
        push_str(&mut text, "\n");
        push_str(&mut text, "  TERM                  ");
        match &self.term {
            Some(term) => push_str(&mut text, term.as_str()),
            None => push_str(&mut text, "(unset)"),
        }
        push_str(&mut text, "\n");
        push_str(&mut text, "  terminal program      ");
        match &self.terminal_program {
            Some(program) => push_str(&mut text, program.as_str()),
            None => push_str(&mut text, "(unknown)"),
        }
        push_str(&mut text, "\n");
        push_str(&mut text, "  Kitty graphics likely ");
        push_str(&mut text, yes_no(self.kitty_graphics_likely));
        push_str(&mut text, "\n");
        if !self.stdout_is_terminal {
            push_str(&mut text, "  result                FAIL (stdout is redirected)\n");
        } else if self.kitty_graphics_likely {
            push_str(&mut text, "  result                READY for `microbox demo`\n");
        } else {
            push_str(
                &mut text,
                "  result                UNKNOWN (run `microbox demo` to probe visually)\n",
            );
        }
        text
    }
}

} // verus!
