//! The private Xvfb display of a native session: the sizes it accepts, the
//! arguments it is started with, and the display name it reports.
use vstd::prelude::*;

use crate::session::{trim, trim_chars};
use crate::text::{texts, chars_of, decimal, owned, parse_unsigned, parse_unsigned_chars, push_decimal, push_str, string_from_chars};

verus! {

broadcast use vstd::string::group_string_axioms;

/// Largest side, in pixels, of a private display.
pub const MAX_DISPLAY_DIMENSION: u16 = 4096;

/// A display is 1 to 4096 pixels on each side.
pub fn display_size_valid(width: u16, height: u16) -> (valid: bool)
    ensures
        valid == (1 <= width <= MAX_DISPLAY_DIMENSION && 1 <= height <= MAX_DISPLAY_DIMENSION),
{
    !(width == 0 || height == 0 || width > MAX_DISPLAY_DIMENSION || height > MAX_DISPLAY_DIMENSION)
}

/// The arguments of `Xvfb`: it reports its display number on descriptor 1,
/// has one screen of the largest size at 24 bits, listens on no TCP port,
/// and does not reset when its last client leaves.
pub fn xvfb_arguments() -> (arguments: Vec<String>)
    ensures
        texts(arguments@) == seq![
            "-displayfd"@,
            "1"@,
            "-screen"@,
            "0"@,
            decimal(MAX_DISPLAY_DIMENSION as nat) + "x"@ + decimal(MAX_DISPLAY_DIMENSION as nat)
                + "x24"@,
            "-nolisten"@,
            "tcp"@,
            "-noreset"@,
        ],
{
    let mut screen = String::new();
    push_decimal(&mut screen, MAX_DISPLAY_DIMENSION as u64);
    push_str(&mut screen, "x");
    push_decimal(&mut screen, MAX_DISPLAY_DIMENSION as u64);
    push_str(&mut screen, "x24");
    let mut arguments: Vec<String> = Vec::new();
    arguments.push(owned("-displayfd"));
    arguments.push(owned("1"));
    arguments.push(owned("-screen"));
    arguments.push(owned("0"));
    arguments.push(screen);
    arguments.push(owned("-nolisten"));
    arguments.push(owned("tcp"));
    arguments.push(owned("-noreset"));
    assert(texts(arguments@) =~= seq![
        "-displayfd"@,
        "1"@,
        "-screen"@,
        "0"@,
        decimal(MAX_DISPLAY_DIMENSION as nat) + "x"@ + decimal(MAX_DISPLAY_DIMENSION as nat)
            + "x24"@,
        "-nolisten"@,
        "tcp"@,
        "-noreset"@,
    ]);
    arguments
}

/// The display name from the line that Xvfb wrote: `:<number>` for a
/// trimmed `u16`; otherwise the trimmed text, which the error reports.
pub fn display_name_from_line(line: &str) -> (r: Result<String, String>)
    ensures
        match parse_unsigned(trim(line@), u16::MAX as nat) {
            Some(number) => r matches Ok(name) && name@ == ":"@ + decimal(number),
            None => r matches Err(text) && text@ == trim(line@),
        },
{
    let chars = chars_of(line);
    let trimmed = trim_chars(&chars);
    match parse_unsigned_chars(&trimmed, 0xffff) {
        Some(number) => {
            let mut name = owned(":");
            push_decimal(&mut name, number);
            Ok(name)
        },
        None => Err(string_from_chars(trimmed.as_slice())),
    }
}

} // verus!
