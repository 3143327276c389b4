//! Terminal colours, through crossterm's `Stylize`.
//!
//! crossterm writes a foreground colour as `ESC [ 38;5;<n> m`, then the text, then
//! `ESC [ 39 m`. When the `NO_COLOR` environment variable is set it leaves the
//! colour numbers out and writes `ESC [ m` on both sides.
use crossterm::style::Stylize;
use vstd::prelude::*;

verus! {

/// The colour number of blue.
pub open spec fn blue_code() -> Seq<char> {
    seq!['5', ';', '1', '2']
}

/// The colour number of yellow.
pub open spec fn yellow_code() -> Seq<char> {
    seq!['5', ';', '1', '1']
}

/// The colour number of red.
pub open spec fn red_code() -> Seq<char> {
    seq!['5', ';', '9']
}

/// `s` in the colour `code`; `on` is false where the environment turns colours off.
pub open spec fn paint(s: Seq<char>, code: Seq<char>, on: bool) -> Seq<char> {
    if on {
        seq!['\x1b', '[', '3', '8', ';'] + code + seq!['m'] + s + seq!['\x1b', '[', '3', '9', 'm']
    } else {
        seq!['\x1b', '[', 'm'] + s + seq!['\x1b', '[', 'm']
    }
}

/// `r` is `s` in the colour `code`, with colours on or off.
pub open spec fn painted(r: Seq<char>, s: Seq<char>, code: Seq<char>) -> bool {
    r == paint(s, code, true) || r == paint(s, code, false)
}

/// Relies on crossterm's `Stylize::blue` on `&str`, displayed: the text framed by the
/// blue foreground sequence and its reset.
#[verifier::external_body]
pub(crate) fn blue(s: &str) -> (r: String)
    ensures
        painted(r@, s@, blue_code()),
{
    s.blue().to_string()
}

/// Relies on crossterm's `Stylize::yellow` on `&str`, displayed: the text framed by the
/// yellow foreground sequence and its reset.
#[verifier::external_body]
pub(crate) fn yellow(s: &str) -> (r: String)
    ensures
        painted(r@, s@, yellow_code()),
{
    s.yellow().to_string()
}

/// Relies on crossterm's `Stylize::red` on `&str`, displayed: the text framed by the
/// red foreground sequence and its reset.
#[verifier::external_body]
pub(crate) fn red(s: &str) -> (r: String)
    ensures
        painted(r@, s@, red_code()),
{
    s.red().to_string()
}

} // verus!
