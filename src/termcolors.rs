//! Terminal text colors.

use vstd::prelude::*;
use crate::format::{decimal, push_decimal, push_str};
use crate::text::string_of;

verus! {

/// A terminal foreground color.
#[derive(Clone, Copy, Debug, PartialEq, Eq, Structural)]
pub enum Color {
    Red,
    Green,
    Yellow,
    Blue,
    Magenta,
    Cyan,
}

/// The escape code of a color: 31 for red through 36 for cyan.
pub open spec fn color_code(c: Color) -> nat {
    match c {
        Color::Red => 31,
        Color::Green => 32,
        Color::Yellow => 33,
        Color::Blue => 34,
        Color::Magenta => 35,
        Color::Cyan => 36,
    }
}

/// `text` wrapped in the escape sequences that color it and reset the color.
pub open spec fn colored(text: Seq<char>, c: Color) -> Seq<char> {
    "\x1b["@ + decimal(color_code(c)) + "m"@ + text + "\x1b[0m"@
}

/// Returns `text` wrapped so that a terminal shows it in `shade`.
pub fn color(text: &str, shade: Color) -> (s: String)
    ensures
        s@ == colored(text@, shade),
{
    let code: u64 = match shade {
        Color::Red => 31,
        Color::Green => 32,
        Color::Yellow => 33,
        Color::Blue => 34,
        Color::Magenta => 35,
        Color::Cyan => 36,
    };
    let mut out: Vec<char> = Vec::new();
    push_str(&mut out, "\x1b[");
    push_decimal(&mut out, code);
    push_str(&mut out, "m");
    push_str(&mut out, text);
    push_str(&mut out, "\x1b[0m");
    assert(out@ =~= colored(text@, shade));
    string_of(&out)
}

} // verus!
