//! Terminal styling, done by the `coloredpp` crate.
//!
//! Each style wraps a text in two escape sequences: one that switches the
//! style on and one that resets the terminal. The functions of this module
//! are the only ones of the crate that are not verified: each hands its
//! argument to `coloredpp`, and its contract states what the method of that
//! name returns there.

use vstd::prelude::*;
use coloredpp::Colorize;

verus! {

/// `s` in red.
pub open spec fn red_text(s: Seq<char>) -> Seq<char> {
    "\x1B[31m"@ + s + "\x1B[0m"@
}

/// `s` in yellow.
pub open spec fn yellow_text(s: Seq<char>) -> Seq<char> {
    "\x1B[33m"@ + s + "\x1B[0m"@
}

/// `s` in blue.
pub open spec fn blue_text(s: Seq<char>) -> Seq<char> {
    "\x1B[34m"@ + s + "\x1B[0m"@
}

/// `s` in cyan.
pub open spec fn cyan_text(s: Seq<char>) -> Seq<char> {
    "\x1B[36m"@ + s + "\x1B[0m"@
}

/// `s` in bold.
pub open spec fn bold_text(s: Seq<char>) -> Seq<char> {
    "\x1B[1m"@ + s + "\x1B[22m\x1B[0m"@
}

/// `s` in italics.
pub open spec fn italic_text(s: Seq<char>) -> Seq<char> {
    "\x1B[3m"@ + s + "\x1B[23m\x1B[0m"@
}

/// `Colorize::red` of `coloredpp`: the text after the escape sequence for a
/// red foreground and before the reset sequence.
#[verifier::external_body]
pub(crate) fn red(s: &str) -> (res: String)
    ensures
        res@ == red_text(s@),
{
    s.red()
}

/// `Colorize::yellow` of `coloredpp`: the text after the escape sequence for
/// a yellow foreground and before the reset sequence.
#[verifier::external_body]
pub(crate) fn yellow(s: &str) -> (res: String)
    ensures
        res@ == yellow_text(s@),
{
    s.yellow()
}

/// `Colorize::blue` of `coloredpp`: the text after the escape sequence for a
/// blue foreground and before the reset sequence.
#[verifier::external_body]
pub(crate) fn blue(s: &str) -> (res: String)
    ensures
        res@ == blue_text(s@),
{
    s.blue()
}

/// `Colorize::cyan` of `coloredpp`: the text after the escape sequence for a
/// cyan foreground and before the reset sequence.
#[verifier::external_body]
pub(crate) fn cyan(s: &str) -> (res: String)
    ensures
        res@ == cyan_text(s@),
{
    s.cyan()
}

/// `Colorize::bold` of `coloredpp`: the text after the escape sequence for
/// bold and before the sequences that end bold and reset the terminal.
#[verifier::external_body]
pub(crate) fn bold(s: &str) -> (res: String)
    ensures
        res@ == bold_text(s@),
{
    s.bold()
}

/// `Colorize::italic` of `coloredpp`: the text after the escape sequence for
/// italics and before the sequences that end italics and reset the terminal.
#[verifier::external_body]
pub(crate) fn italic(s: &str) -> (res: String)
    ensures
        res@ == italic_text(s@),
{
    s.italic()
}

} // verus!
