//! The colors probe: a fixed sequence of colored dots, one for each of six
//! terminal colors, ending with a style reset.

use vstd::prelude::*;

verus! {

/// The color strip: a dot in blue, cyan, green, yellow, red and magenta,
/// each followed by two spaces, closed by a style reset.
pub open spec fn dots_text() -> Seq<char> {
    "\u{1b}[34m\u{f111}  \u{1b}[36m\u{f111}  \u{1b}[32m\u{f111}  \u{1b}[33m\u{f111}  \u{1b}[31m\u{f111}  \u{1b}[35m\u{f111}  \u{1b}[0m"@
}

/// Produces the color strip.
pub fn print_dots() -> (r: String)
    ensures
        r@ == dots_text(),
{
    "\u{1b}[34m\u{f111}  \u{1b}[36m\u{f111}  \u{1b}[32m\u{f111}  \u{1b}[33m\u{f111}  \u{1b}[31m\u{f111}  \u{1b}[35m\u{f111}  \u{1b}[0m".to_owned()
}

} // verus!
