//! Styled text fragments.
//!
//! The status lines quote numbers and command strings in color. The
//! coloring itself is done by the `colored` crate, whose output
//! depends on the environment (a terminal, `NO_COLOR`, and so on), so
//! the exact fragment cannot be fixed. What every outcome shares can:
//! the displayed fragment is either the given text alone (coloring
//! off), or the text between one select-graphic-rendition escape
//! sequence and the reset sequence — provided the text itself
//! contains no escape character (`colored` rewrites inner reset
//! sequences, which begin with one).

use vstd::prelude::*;

use colored::Colorize;

verus! {

/// `s` contains no escape character, hence no reset sequence.
pub open spec fn no_esc(s: Seq<char>) -> bool {
    forall|i: int| 0 <= i < s.len() ==> s[i] != '\x1b'
}

/// A parameter byte of a select-graphic-rendition sequence: a decimal
/// digit or a semicolon.
pub open spec fn sgr_param(c: char) -> bool {
    (48 <= (c as u32) && (c as u32) <= 57) || c == ';'
}

/// A select-graphic-rendition escape sequence: `ESC [`, parameter
/// bytes, and a final `m`.
pub open spec fn sgr_seq(p: Seq<char>) -> bool {
    &&& p.len() >= 3
    &&& p[0] == '\x1b'
    &&& p[1] == '['
    &&& p.last() == 'm'
    &&& (forall|i: int| 2 <= i < p.len() - 1 ==> sgr_param(p[i]))
}

/// A styled rendering of `s`: the text itself, or the text between
/// one select-graphic-rendition sequence and the reset sequence.
pub open spec fn styled(f: Seq<char>, s: Seq<char>) -> bool {
    f == s || (exists|p: Seq<char>| sgr_seq(p) && f == p + s + "\x1b[0m"@)
}

/// Relies on `colored::Colorize::green` and `ColoredString`'s
/// `Display`: with coloring off the display is the input text alone;
/// with coloring on it is the computed style sequence (`ESC [`,
/// digit-and-semicolon codes, `m`), the text (rewritten only at inner
/// reset sequences), and the reset sequence.
#[verifier::external_body]
pub(crate) fn green(s: &str) -> (r: String)
    ensures
        r@.len() >= s@.len(),
        no_esc(s@) ==> styled(r@, s@),
{
    s.green().to_string()
}

/// Relies on `colored::Colorize::green`, `Colorize::bold` and
/// `ColoredString`'s `Display`, as `green` does.
#[verifier::external_body]
pub(crate) fn green_bold(s: &str) -> (r: String)
    ensures
        r@.len() >= s@.len(),
        no_esc(s@) ==> styled(r@, s@),
{
    s.green().bold().to_string()
}

/// Relies on `colored::Colorize::red`, `Colorize::bold` and
/// `ColoredString`'s `Display`, as `green` does.
#[verifier::external_body]
pub(crate) fn red_bold(s: &str) -> (r: String)
    ensures
        r@.len() >= s@.len(),
        no_esc(s@) ==> styled(r@, s@),
{
    s.red().bold().to_string()
}

/// Relies on `colored::Colorize::blue`, `Colorize::bold` and
/// `ColoredString`'s `Display`, as `green` does.
#[verifier::external_body]
pub(crate) fn blue_bold(s: &str) -> (r: String)
    ensures
        r@.len() >= s@.len(),
        no_esc(s@) ==> styled(r@, s@),
{
    s.blue().bold().to_string()
}

/// Relies on `colored::Colorize::yellow`, `Colorize::bold` and
/// `ColoredString`'s `Display`, as `green` does.
#[verifier::external_body]
pub(crate) fn yellow_bold(s: &str) -> (r: String)
    ensures
        r@.len() >= s@.len(),
        no_esc(s@) ==> styled(r@, s@),
{
    s.yellow().bold().to_string()
}

} // verus!
