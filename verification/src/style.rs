//! Terminal colouring of rendered text.
//!
//! Each colour helper returns the text unchanged when colour is off, and the text
//! wrapped in the ANSI escape sequences that `owo_colors` writes when it is on.

use owo_colors::OwoColorize;
use vstd::prelude::*;

verus! {

/// `ESC [ code m`, the escape sequence that selects a foreground colour or style.
pub open spec fn ansi_sgr(code: Seq<char>) -> Seq<char> {
    seq!['\x1b', '['] + code + seq!['m']
}

/// `text` painted with the foreground colour `code` and followed by the
/// default-foreground reset `ESC [ 39 m`.
pub open spec fn ansi_fg(code: Seq<char>, text: Seq<char>) -> Seq<char> {
    ansi_sgr(code) + text + ansi_sgr(seq!['3', '9'])
}

/// `text` painted with `code` when `color` holds, `text` itself otherwise.
pub open spec fn paint(code: Seq<char>, text: Seq<char>, color: bool) -> Seq<char> {
    if color {
        ansi_fg(code, text)
    } else {
        text
    }
}

/// Dark (bright black) text.
pub open spec fn dark_spec(text: Seq<char>, color: bool) -> Seq<char> {
    paint(seq!['9', '0'], text, color)
}

/// Yellow text.
pub open spec fn yellow_spec(text: Seq<char>, color: bool) -> Seq<char> {
    paint(seq!['3', '3'], text, color)
}

/// Bright blue text.
pub open spec fn blue_spec(text: Seq<char>, color: bool) -> Seq<char> {
    paint(seq!['9', '4'], text, color)
}

/// Magenta text.
pub open spec fn magenta_spec(text: Seq<char>, color: bool) -> Seq<char> {
    paint(seq!['3', '5'], text, color)
}

/// Green text.
pub open spec fn green_spec(text: Seq<char>, color: bool) -> Seq<char> {
    paint(seq!['3', '2'], text, color)
}

/// Red text.
pub open spec fn red_spec(text: Seq<char>, color: bool) -> Seq<char> {
    paint(seq!['3', '1'], text, color)
}

/// Cyan text.
pub open spec fn cyan_spec(text: Seq<char>, color: bool) -> Seq<char> {
    paint(seq!['3', '6'], text, color)
}

/// Light (white) text.
pub open spec fn light_spec(text: Seq<char>, color: bool) -> Seq<char> {
    paint(seq!['3', '7'], text, color)
}

/// Yellow underlined text: the underline style `ESC [ 4 m` around yellow text,
/// closed by the full reset `ESC [ 0 m`.
pub open spec fn yellow_underlined_spec(text: Seq<char>, color: bool) -> Seq<char> {
    if color {
        ansi_sgr(seq!['4']) + ansi_fg(seq!['3', '3'], text) + ansi_sgr(seq!['0'])
    } else {
        text
    }
}

/// `OwoColorize::bright_black` rendered with `to_string`: the foreground code 90
/// before the text and the reset code 39 after it (owo-colors `FgColorDisplay`).
#[verifier::external_body]
fn owo_bright_black(text: &str) -> (r: String)
    ensures
        r@ == ansi_fg(seq!['9', '0'], text@),
{
    text.bright_black().to_string()
}

/// `OwoColorize::yellow` rendered with `to_string`: code 33 before, reset 39 after.
#[verifier::external_body]
fn owo_yellow(text: &str) -> (r: String)
    ensures
        r@ == ansi_fg(seq!['3', '3'], text@),
{
    text.yellow().to_string()
}

/// `OwoColorize::underline` applied to `OwoColorize::yellow`, rendered with
/// `to_string`: the underline code 4, the yellow display, and the reset code 0
/// (owo-colors `UnderlineDisplay` around `FgColorDisplay`).
#[verifier::external_body]
fn owo_yellow_underline(text: &str) -> (r: String)
    ensures
        r@ == ansi_sgr(seq!['4']) + ansi_fg(seq!['3', '3'], text@) + ansi_sgr(seq!['0']),
{
    text.yellow().underline().to_string()
}

/// `OwoColorize::bright_blue` rendered with `to_string`: code 94 before, reset 39 after.
#[verifier::external_body]
fn owo_bright_blue(text: &str) -> (r: String)
    ensures
        r@ == ansi_fg(seq!['9', '4'], text@),
{
    text.bright_blue().to_string()
}

/// `OwoColorize::magenta` rendered with `to_string`: code 35 before, reset 39 after.
#[verifier::external_body]
fn owo_magenta(text: &str) -> (r: String)
    ensures
        r@ == ansi_fg(seq!['3', '5'], text@),
{
    text.magenta().to_string()
}

/// `OwoColorize::green` rendered with `to_string`: code 32 before, reset 39 after.
#[verifier::external_body]
fn owo_green(text: &str) -> (r: String)
    ensures
        r@ == ansi_fg(seq!['3', '2'], text@),
{
    text.green().to_string()
}

/// `OwoColorize::red` rendered with `to_string`: code 31 before, reset 39 after.
#[verifier::external_body]
fn owo_red(text: &str) -> (r: String)
    ensures
        r@ == ansi_fg(seq!['3', '1'], text@),
{
    text.red().to_string()
}

/// `OwoColorize::cyan` rendered with `to_string`: code 36 before, reset 39 after.
#[verifier::external_body]
fn owo_cyan(text: &str) -> (r: String)
    ensures
        r@ == ansi_fg(seq!['3', '6'], text@),
{
    text.cyan().to_string()
}

/// `OwoColorize::white` rendered with `to_string`: code 37 before, reset 39 after.
#[verifier::external_body]
fn owo_white(text: &str) -> (r: String)
    ensures
        r@ == ansi_fg(seq!['3', '7'], text@),
{
    text.white().to_string()
}

/// `text` in a dark (bright black) colour when `color` is on.
pub fn dark(text: &str, color: bool) -> (r: String)
    ensures
        r@ == dark_spec(text@, color),
{
    if color {
        owo_bright_black(text)
    } else {
        crate::text::owned(text)
    }
}

/// `text` in yellow when `color` is on.
pub fn yellow(text: &str, color: bool) -> (r: String)
    ensures
        r@ == yellow_spec(text@, color),
{
    if color {
        owo_yellow(text)
    } else {
        crate::text::owned(text)
    }
}

/// `text` in underlined yellow when `color` is on.
pub fn yellow_underlined(text: &str, color: bool) -> (r: String)
    ensures
        r@ == yellow_underlined_spec(text@, color),
{
    if color {
        owo_yellow_underline(text)
    } else {
        crate::text::owned(text)
    }
}

/// `text` in bright blue when `color` is on.
pub fn blue(text: &str, color: bool) -> (r: String)
    ensures
        r@ == blue_spec(text@, color),
{
    if color {
        owo_bright_blue(text)
    } else {
        crate::text::owned(text)
    }
}

/// `text` in magenta when `color` is on.
pub fn magenta(text: &str, color: bool) -> (r: String)
    ensures
        r@ == magenta_spec(text@, color),
{
    if color {
        owo_magenta(text)
    } else {
        crate::text::owned(text)
    }
}

/// `text` in green when `color` is on.
pub fn green(text: &str, color: bool) -> (r: String)
    ensures
        r@ == green_spec(text@, color),
{
    if color {
        owo_green(text)
    } else {
        crate::text::owned(text)
    }
}

/// `text` in red when `color` is on.
pub fn red(text: &str, color: bool) -> (r: String)
    ensures
        r@ == red_spec(text@, color),
{
    if color {
        owo_red(text)
    } else {
        crate::text::owned(text)
    }
}

/// `text` in cyan when `color` is on.
pub fn cyan(text: &str, color: bool) -> (r: String)
    ensures
        r@ == cyan_spec(text@, color),
{
    if color {
        owo_cyan(text)
    } else {
        crate::text::owned(text)
    }
}

/// `text` in a light (white) colour when `color` is on.
pub fn light(text: &str, color: bool) -> (r: String)
    ensures
        r@ == light_spec(text@, color),
{
    if color {
        owo_white(text)
    } else {
        crate::text::owned(text)
    }
}

} // verus!
