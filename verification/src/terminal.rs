//! Calls into `console` (text measurement) and `anstyle` (escape codes).
use vstd::prelude::*;

use anstyle::Effects as AnsiEffects;

use crate::style::{bg_code, effects_code, fg_code, reset_code, Color, Effects};

verus! {

/// The number of terminal columns `s` occupies, escape codes excluded, as
/// `console::measure_text_width` computes it.
pub uninterp spec fn display_width(s: Seq<char>) -> usize;

/// What `console::truncate_str(s, width, tail)` returns.
pub uninterp spec fn truncated(s: Seq<char>, width: usize, tail: Seq<char>) -> Seq<char>;

/// What `console::strip_ansi_codes(s)` returns.
pub uninterp spec fn ansi_stripped(s: Seq<char>) -> Seq<char>;

/// Every character is printable ASCII (space to `~`).
pub open spec fn printable_ascii(s: Seq<char>) -> bool {
    forall|i: int| 0 <= i < s.len() ==> 0x20 <= (#[trigger] s[i]) as u32 <= 0x7e
}

/// Neither escape-sequence introducer (ESC, CSI) occurs in `s`.
pub open spec fn no_escapes(s: Seq<char>) -> bool {
    !s.contains('\u{1b}') && !s.contains('\u{9b}')
}

/// `console::measure_text_width`. Its result is named `display_width`; the
/// source returns the length directly for printable-ASCII text, which is the
/// one further fact claimed here.
#[verifier::external_body]
pub(crate) fn measure_text_width(s: &str) -> (res: usize)
    ensures
        res == display_width(s@),
        printable_ascii(s@) ==> res == s@.len(),
{
    console::measure_text_width(s)
}

/// `console::truncate_str`, owned. Its result is named `truncated`. The
/// source returns `s` itself when it already fits. For printable-ASCII text
/// and tail, where each character takes one column, a longer `s` keeps its
/// first `width - tail.len()` characters followed by the tail, which is
/// claimed here. How other text is cut is not stated.
#[verifier::external_body]
pub(crate) fn truncate_str(s: &str, width: usize, tail: &str) -> (res: String)
    ensures
        res@ == truncated(s@, width, tail@),
        display_width(s@) <= width ==> res@ == s@,
        printable_ascii(s@) && s@.len() <= width ==> res@ == s@,
        printable_ascii(s@) && printable_ascii(tail@) && tail@.len() <= width && s@.len() > width
            ==> res@ == s@.take(width - tail@.len()) + tail@,
{
    console::truncate_str(s, width, tail).into_owned()
}

/// `console::strip_ansi_codes`, owned. Its result is named `ansi_stripped`;
/// the source returns `s` itself when no escape introducer occurs in it.
#[verifier::external_body]
pub(crate) fn strip_ansi_codes(s: &str) -> (res: String)
    ensures
        res@ == ansi_stripped(s@),
        no_escapes(s@) ==> res@ == s@,
{
    console::strip_ansi_codes(s).into_owned()
}

/// `anstyle::Effects::render`: the escape code of each enabled effect, in
/// the order anstyle lists them.
#[verifier::external_body]
pub(crate) fn render_effects(e: Effects) -> (res: String)
    ensures
        res@ == effects_code(e),
{
    let fx = AnsiEffects::new().set(AnsiEffects::BOLD, e.bold).set(AnsiEffects::DIMMED, e.dimmed)
        .set(AnsiEffects::ITALIC, e.italic).set(AnsiEffects::UNDERLINE, e.underline)
        .set(AnsiEffects::DOUBLE_UNDERLINE, e.double_underline)
        .set(AnsiEffects::CURLY_UNDERLINE, e.curly_underline)
        .set(AnsiEffects::DOTTED_UNDERLINE, e.dotted_underline)
        .set(AnsiEffects::DASHED_UNDERLINE, e.dashed_underline).set(AnsiEffects::BLINK, e.blink)
        .set(AnsiEffects::INVERT, e.invert).set(AnsiEffects::HIDDEN, e.hidden)
        .set(AnsiEffects::STRIKETHROUGH, e.strikethrough);
    format!("{}", fx.render())
}

/// `anstyle::Color::render_fg`: `ESC[38;5;<n>m` or `ESC[38;2;<r>;<g>;<b>m`.
#[verifier::external_body]
pub(crate) fn render_fg(c: Color) -> (res: String)
    ensures
        res@ == fg_code(c),
{
    let color: anstyle::Color = match c {
        Color::Ansi256(n) => anstyle::Ansi256Color(n).into(),
        Color::Rgb(r, g, b) => anstyle::RgbColor(r, g, b).into(),
    };
    format!("{}", color.render_fg())
}

/// `anstyle::Color::render_bg`: `ESC[48;5;<n>m` or `ESC[48;2;<r>;<g>;<b>m`.
#[verifier::external_body]
pub(crate) fn render_bg(c: Color) -> (res: String)
    ensures
        res@ == bg_code(c),
{
    let color: anstyle::Color = match c {
        Color::Ansi256(n) => anstyle::Ansi256Color(n).into(),
        Color::Rgb(r, g, b) => anstyle::RgbColor(r, g, b).into(),
    };
    format!("{}", color.render_bg())
}

/// `anstyle::Reset::render`: `ESC[0m`.
#[verifier::external_body]
pub(crate) fn render_reset() -> (res: String)
    ensures
        res@ == reset_code(),
{
    format!("{}", anstyle::Reset.render())
}

} // verus!
