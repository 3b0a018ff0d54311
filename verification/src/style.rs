//! Formatted parts: a style (colors and effects) and a piece of content, read
//! from format strings such as `#[fg=#ff0000,bold]text`.
use vstd::prelude::*;

use crate::config_map::{same_chars, Config};
use crate::terminal::{render_bg, render_effects, render_fg, render_reset};
use crate::text::{
    append_chars, chars_of, copy_range, decimal, find, first_match_from, has_prefix,
    parse_usize, parse_usize_spec, split, split_seq, starts_with, string_of,
};

verus! {

/// Text effects, one flag for each effect a terminal knows.
#[derive(Clone, Copy, Debug, PartialEq, Eq, Structural)]
pub struct Effects {
    pub bold: bool,
    pub dimmed: bool,
    pub italic: bool,
    pub underline: bool,
    pub double_underline: bool,
    pub curly_underline: bool,
    pub dotted_underline: bool,
    pub dashed_underline: bool,
    pub blink: bool,
    pub invert: bool,
    pub hidden: bool,
    pub strikethrough: bool,
}

/// A terminal color: an entry of the 256-color palette or a 24-bit color.
#[derive(Clone, Copy, Debug, PartialEq, Eq, Structural)]
pub enum Color {
    Ansi256(u8),
    Rgb(u8, u8, u8),
}

/// Foreground, background and effects.
#[derive(Clone, Copy, Debug, PartialEq, Eq, Structural)]
pub struct Style {
    pub fg: Option<Color>,
    pub bg: Option<Color>,
    pub effects: Effects,
}

/// A styled piece of a format string.
#[derive(Clone, Debug, PartialEq, Eq)]
pub struct FormattedPart {
    pub fg: Option<Color>,
    pub bg: Option<Color>,
    pub effects: Effects,
    pub content: String,
}

/// What a formatted part stands for.
pub struct PartView {
    pub style: Style,
    pub content: Seq<char>,
}

impl View for FormattedPart {
    type V = PartView;

    open spec fn view(&self) -> PartView {
        PartView {
            style: Style { fg: self.fg, bg: self.bg, effects: self.effects },
            content: self.content@,
        }
    }
}

/// The views of a sequence of parts.
pub open spec fn parts_view(v: Seq<FormattedPart>) -> Seq<PartView> {
    v.map_values(|p: FormattedPart| p@)
}

// ---------------------------------------------------------------------------
// Escape codes
// ---------------------------------------------------------------------------

/// `ESC [ code m`.
pub open spec fn sgr(code: Seq<char>) -> Seq<char> {
    seq!['\u{1b}', '['] + code + seq!['m']
}

pub open spec fn code_if(on: bool, code: Seq<char>) -> Seq<char> {
    if on {
        sgr(code)
    } else {
        seq![]
    }
}

/// The codes of the enabled effects, in anstyle's order.
pub open spec fn effects_code(e: Effects) -> Seq<char> {
    code_if(e.bold, seq!['1']) + code_if(e.dimmed, seq!['2']) + code_if(e.italic, seq!['3'])
        + code_if(e.underline, seq!['4']) + code_if(e.double_underline, seq!['2', '1']) + code_if(
        e.curly_underline,
        seq!['4', ':', '3'],
    ) + code_if(e.dotted_underline, seq!['4', ':', '4']) + code_if(
        e.dashed_underline,
        seq!['4', ':', '5'],
    ) + code_if(e.blink, seq!['5']) + code_if(e.invert, seq!['7']) + code_if(e.hidden, seq!['8'])
        + code_if(e.strikethrough, seq!['9'])
}

/// The parameters that select `c`, after the `38;`/`48;` introducer.
pub open spec fn color_params(c: Color) -> Seq<char> {
    match c {
        Color::Ansi256(n) => seq!['5', ';'] + decimal(n as nat),
        Color::Rgb(r, g, b) => seq!['2', ';'] + decimal(r as nat) + seq![';'] + decimal(g as nat)
            + seq![';'] + decimal(b as nat),
    }
}

/// The code that sets the foreground to `c`.
pub open spec fn fg_code(c: Color) -> Seq<char> {
    sgr(seq!['3', '8', ';'] + color_params(c))
}

/// The code that sets the background to `c`.
pub open spec fn bg_code(c: Color) -> Seq<char> {
    sgr(seq!['4', '8', ';'] + color_params(c))
}

/// The code that resets all styling.
pub open spec fn reset_code() -> Seq<char> {
    sgr(seq!['0'])
}

pub open spec fn no_effects() -> Effects {
    Effects {
        bold: false,
        dimmed: false,
        italic: false,
        underline: false,
        double_underline: false,
        curly_underline: false,
        dotted_underline: false,
        dashed_underline: false,
        blink: false,
        invert: false,
        hidden: false,
        strikethrough: false,
    }
}

pub open spec fn plain_style() -> Style {
    Style { fg: None, bg: None, effects: no_effects() }
}

/// The codes that switch `st` on.
pub open spec fn style_prefix(st: Style) -> Seq<char> {
    effects_code(st.effects) + (match st.fg {
        Some(c) => fg_code(c),
        None => seq![],
    }) + (match st.bg {
        Some(c) => bg_code(c),
        None => seq![],
    })
}

/// `text` in style `st`: the style's codes, the text, and a reset unless the
/// style is plain.
pub open spec fn formatted(st: Style, text: Seq<char>) -> Seq<char> {
    style_prefix(st) + text + (if st == plain_style() {
        seq![]
    } else {
        reset_code()
    })
}

/// Plain text is left exactly as it is.
pub proof fn lemma_plain_formatted(text: Seq<char>)
    ensures
        formatted(plain_style(), text) == text,
{
    assert(formatted(plain_style(), text) =~= text);
}

// ---------------------------------------------------------------------------
// Format strings
// ---------------------------------------------------------------------------

/// The value of a hexadecimal digit.
pub open spec fn hex_value(c: char) -> Option<nat> {
    if '0' <= c && c <= '9' {
        Some((c as nat - 48) as nat)
    } else if 'a' <= c && c <= 'f' {
        Some((c as nat - 87) as nat)
    } else if 'A' <= c && c <= 'F' {
        Some((c as nat - 55) as nat)
    } else {
        None
    }
}

/// The byte written by two hexadecimal digits.
pub open spec fn hex_byte(a: char, b: char) -> Option<u8> {
    match (hex_value(a), hex_value(b)) {
        (Some(x), Some(y)) => Some((x * 16 + y) as u8),
        _ => None,
    }
}

/// The palette index of a color name.
pub open spec fn named_color(v: Seq<char>) -> Option<u8> {
    if v == "black"@ {
        Some(0)
    } else if v == "red"@ {
        Some(1)
    } else if v == "green"@ {
        Some(2)
    } else if v == "yellow"@ {
        Some(3)
    } else if v == "blue"@ {
        Some(4)
    } else if v == "magenta"@ {
        Some(5)
    } else if v == "cyan"@ {
        Some(6)
    } else if v == "white"@ {
        Some(7)
    } else {
        None
    }
}

/// A color written out: `#rrggbb`, a color name, or a palette index.
pub open spec fn literal_color(v: Seq<char>) -> Option<Color> {
    if v.len() == 7 && v[0] == '#' && hex_byte(v[1], v[2]) is Some && hex_byte(v[3], v[4]) is Some
        && hex_byte(v[5], v[6]) is Some {
        Some(
            Color::Rgb(
                hex_byte(v[1], v[2])->0,
                hex_byte(v[3], v[4])->0,
                hex_byte(v[5], v[6])->0,
            ),
        )
    } else if named_color(v) is Some {
        Some(Color::Ansi256(named_color(v)->0))
    } else {
        match parse_usize_spec(v) {
            Some(n) => if n <= 255 {
                Some(Color::Ansi256(n as u8))
            } else {
                None
            },
            None => None,
        }
    }
}

/// A color value: `$name` reads the configured `color_name`, anything else is
/// a literal color.
pub open spec fn color_spec(v: Seq<char>, cfg: Map<Seq<char>, Seq<char>>) -> Option<Color> {
    if v.len() > 0 && v[0] == '$' {
        let key = "color_"@ + v.skip(1);
        if cfg.contains_key(key) {
            literal_color(cfg[key])
        } else {
            None
        }
    } else {
        literal_color(v)
    }
}

/// The position of a named effect in `Effects`.
pub open spec fn effect_index(d: Seq<char>) -> Option<nat> {
    if d == "bold"@ {
        Some(0)
    } else if d == "dim"@ {
        Some(1)
    } else if d == "italic"@ {
        Some(2)
    } else if d == "underscore"@ {
        Some(3)
    } else if d == "doubleunderscore"@ {
        Some(4)
    } else if d == "curlyunderscore"@ {
        Some(5)
    } else if d == "dottedunderscore"@ {
        Some(6)
    } else if d == "dashedunderscore"@ {
        Some(7)
    } else if d == "blink"@ {
        Some(8)
    } else if d == "reverse"@ {
        Some(9)
    } else if d == "hidden"@ {
        Some(10)
    } else if d == "strikethrough"@ {
        Some(11)
    } else {
        None
    }
}

/// `e` with effect number `k` switched on.
pub open spec fn with_effect(e: Effects, k: nat) -> Effects {
    if k == 0 {
        Effects { bold: true, ..e }
    } else if k == 1 {
        Effects { dimmed: true, ..e }
    } else if k == 2 {
        Effects { italic: true, ..e }
    } else if k == 3 {
        Effects { underline: true, ..e }
    } else if k == 4 {
        Effects { double_underline: true, ..e }
    } else if k == 5 {
        Effects { curly_underline: true, ..e }
    } else if k == 6 {
        Effects { dotted_underline: true, ..e }
    } else if k == 7 {
        Effects { dashed_underline: true, ..e }
    } else if k == 8 {
        Effects { blink: true, ..e }
    } else if k == 9 {
        Effects { invert: true, ..e }
    } else if k == 10 {
        Effects { hidden: true, ..e }
    } else if k == 11 {
        Effects { strikethrough: true, ..e }
    } else {
        e
    }
}

/// One directive of a style block: `fg=<color>`, `bg=<color>` or an effect
/// name; anything else leaves the style as it is.
pub open spec fn apply_directive(st: Style, d: Seq<char>, cfg: Map<Seq<char>, Seq<char>>) -> Style {
    if starts_with(d, "fg="@) {
        Style { fg: color_spec(d.skip("fg="@.len() as int), cfg), ..st }
    } else if starts_with(d, "bg="@) {
        Style { bg: color_spec(d.skip("bg="@.len() as int), cfg), ..st }
    } else {
        match effect_index(d) {
            Some(k) => Style { effects: with_effect(st.effects, k), ..st },
            None => st,
        }
    }
}

/// The directives `ds` applied in order.
pub open spec fn apply_directives(
    st: Style,
    ds: Seq<Seq<char>>,
    cfg: Map<Seq<char>, Seq<char>>,
) -> Style
    decreases ds.len(),
{
    if ds.len() == 0 {
        st
    } else {
        apply_directive(apply_directives(st, ds.drop_last(), cfg), ds.last(), cfg)
    }
}

/// The part that a format piece stands for. A leading `#[` is dropped; the
/// text up to the first `]` is a comma-separated list of directives and the
/// rest is the content. A piece without `]` is all content.
pub open spec fn part_spec(s: Seq<char>, cfg: Map<Seq<char>, Seq<char>>) -> PartView {
    let body = if starts_with(s, "#["@) {
        s.skip("#["@.len() as int)
    } else {
        s
    };
    match first_match_from(body, seq![']'], 0) {
        None => PartView { style: plain_style(), content: body },
        Some(j) => PartView {
            style: apply_directives(plain_style(), split_seq(body.take(j), seq![',']), cfg),
            content: body.skip(j + 1),
        },
    }
}

/// The parts of a format string: one for each piece between `#[` openers.
pub open spec fn parts_spec(s: Seq<char>, cfg: Map<Seq<char>, Seq<char>>) -> Seq<PartView> {
    split_seq(s, "#["@).map_values(|p: Seq<char>| part_spec(p, cfg))
}

// ---------------------------------------------------------------------------
// Executable parsing
// ---------------------------------------------------------------------------

fn hex_digit(c: char) -> (res: Option<u32>)
    ensures
        match hex_value(c) {
            Some(v) => res == Some(v as u32),
            None => res is None,
        },
{
    if '0' <= c && c <= '9' {
        Some(c as u32 - 48)
    } else if 'a' <= c && c <= 'f' {
        Some(c as u32 - 87)
    } else if 'A' <= c && c <= 'F' {
        Some(c as u32 - 55)
    } else {
        None
    }
}

fn hex_pair(a: char, b: char) -> (res: Option<u8>)
    ensures
        res == hex_byte(a, b),
{
    match (hex_digit(a), hex_digit(b)) {
        (Some(x), Some(y)) => Some((x * 16 + y) as u8),
        _ => None,
    }
}

fn is_word(v: &[char], word: &str) -> (res: bool)
    ensures
        res == (v@ == word@),
{
    let w = chars_of(word);
    same_chars(v, &w)
}

fn color_name_index(v: &[char]) -> (res: Option<u8>)
    ensures
        res == named_color(v@),
{
    if is_word(v, "black") {
        Some(0)
    } else if is_word(v, "red") {
        Some(1)
    } else if is_word(v, "green") {
        Some(2)
    } else if is_word(v, "yellow") {
        Some(3)
    } else if is_word(v, "blue") {
        Some(4)
    } else if is_word(v, "magenta") {
        Some(5)
    } else if is_word(v, "cyan") {
        Some(6)
    } else if is_word(v, "white") {
        Some(7)
    } else {
        None
    }
}

fn parse_literal_color(v: &[char]) -> (res: Option<Color>)
    ensures
        res == literal_color(v@),
{
    if v.len() == 7 && v[0] == '#' {
        let r = hex_pair(v[1], v[2]);
        let g = hex_pair(v[3], v[4]);
        let b = hex_pair(v[5], v[6]);
        if let (Some(r), Some(g), Some(b)) = (r, g, b) {
            return Some(Color::Rgb(r, g, b));
        }
    }
    if let Some(n) = color_name_index(v) {
        return Some(Color::Ansi256(n));
    }
    match parse_usize(v) {
        Some(n) => if n <= 255 {
            Some(Color::Ansi256(n as u8))
        } else {
            None
        },
        None => None,
    }
}

/// Reads a color value, resolving `$name` through the configuration.
pub fn parse_color(v: &[char], config: &Config) -> (res: Option<Color>)
    ensures
        res == color_spec(v@, config@),
{
    if v.len() > 0 && v[0] == '$' {
        let mut key = chars_of("color_");
        let name = copy_range(v, 1, v.len());
        append_chars(&mut key, &name);
        assert(name@ =~= v@.skip(1));
        let key = string_of(&key);
        match config.get(key.as_str()) {
            Some(value) => {
                let value = chars_of(value.as_str());
                parse_literal_color(&value)
            },
            None => None,
        }
    } else {
        parse_literal_color(v)
    }
}

fn effect_number(d: &[char]) -> (res: Option<usize>)
    ensures
        match effect_index(d@) {
            Some(k) => res == Some(k as usize),
            None => res is None,
        },
{
    if is_word(d, "bold") {
        Some(0)
    } else if is_word(d, "dim") {
        Some(1)
    } else if is_word(d, "italic") {
        Some(2)
    } else if is_word(d, "underscore") {
        Some(3)
    } else if is_word(d, "doubleunderscore") {
        Some(4)
    } else if is_word(d, "curlyunderscore") {
        Some(5)
    } else if is_word(d, "dottedunderscore") {
        Some(6)
    } else if is_word(d, "dashedunderscore") {
        Some(7)
    } else if is_word(d, "blink") {
        Some(8)
    } else if is_word(d, "reverse") {
        Some(9)
    } else if is_word(d, "hidden") {
        Some(10)
    } else if is_word(d, "strikethrough") {
        Some(11)
    } else {
        None
    }
}

fn set_effect(e: Effects, k: usize) -> (res: Effects)
    ensures
        res == with_effect(e, k as nat),
{
    let mut e = e;
    if k == 0 {
        e.bold = true;
    } else if k == 1 {
        e.dimmed = true;
    } else if k == 2 {
        e.italic = true;
    } else if k == 3 {
        e.underline = true;
    } else if k == 4 {
        e.double_underline = true;
    } else if k == 5 {
        e.curly_underline = true;
    } else if k == 6 {
        e.dotted_underline = true;
    } else if k == 7 {
        e.dashed_underline = true;
    } else if k == 8 {
        e.blink = true;
    } else if k == 9 {
        e.invert = true;
    } else if k == 10 {
        e.hidden = true;
    } else if k == 11 {
        e.strikethrough = true;
    }
    e
}

fn directive(st: Style, d: &[char], config: &Config) -> (res: Style)
    ensures
        res == apply_directive(st, d@, config@),
{
    let fg = chars_of("fg=");
    let bg = chars_of("bg=");
    if has_prefix(d, &fg) {
        let v = copy_range(d, fg.len(), d.len());
        assert(v@ =~= d@.skip("fg="@.len() as int));
        Style { fg: parse_color(&v, config), ..st }
    } else if has_prefix(d, &bg) {
        let v = copy_range(d, bg.len(), d.len());
        assert(v@ =~= d@.skip("bg="@.len() as int));
        Style { bg: parse_color(&v, config), ..st }
    } else {
        match effect_number(d) {
            Some(k) => Style { effects: set_effect(st.effects, k), ..st },
            None => st,
        }
    }
}

/// The plain style.
pub fn plain() -> (res: Style)
    ensures
        res == plain_style(),
{
    Style {
        fg: None,
        bg: None,
        effects: Effects {
            bold: false,
            dimmed: false,
            italic: false,
            underline: false,
            double_underline: false,
            curly_underline: false,
            dotted_underline: false,
            dashed_underline: false,
            blink: false,
            invert: false,
            hidden: false,
            strikethrough: false,
        },
    }
}

fn part_from_chars(s: &[char], config: &Config) -> (res: FormattedPart)
    ensures
        res@ == part_spec(s@, config@),
{
    let open = chars_of("#[");
    let body = if has_prefix(s, &open) {
        let b = copy_range(s, open.len(), s.len());
        assert(b@ =~= s@.skip("#["@.len() as int));
        b
    } else {
        let b = copy_range(s, 0, s.len());
        assert(b@ =~= s@);
        b
    };
    let mut close: Vec<char> = Vec::new();
    close.push(']');
    assert(close@ =~= seq![']']);
    match find(&body, &close) {
        None => FormattedPart { fg: None, bg: None, effects: plain().effects, content: string_of(&body) },
        Some(j) => {
            proof {
                crate::text::lemma_first_match(body@, close@, 0);
            }
            let head = copy_range(&body, 0, j);
            let rest = copy_range(&body, j + 1, body.len());
            assert(head@ =~= body@.take(j as int));
            assert(rest@ =~= body@.skip(j + 1));
            let mut comma: Vec<char> = Vec::new();
            comma.push(',');
            assert(comma@ =~= seq![',']);
            let ds = split(&head, &comma);
            let ghost dsv = ds.deep_view();
            let mut st = plain();
            let mut i: usize = 0;
            while i < ds.len()
                invariant
                    i <= ds@.len(),
                    dsv == ds.deep_view(),
                    st == apply_directives(plain_style(), dsv.take(i as int), config@),
                decreases ds.len() - i,
            {
                assert(ds[i as int]@ == dsv[i as int]);
                st = directive(st, &ds[i], config);
                assert(dsv.take(i + 1).drop_last() =~= dsv.take(i as int));
                i += 1;
            }
            assert(dsv.take(ds@.len() as int) =~= dsv);
            FormattedPart { fg: st.fg, bg: st.bg, effects: st.effects, content: string_of(&rest) }
        },
    }
}

impl FormattedPart {
    /// The part written by one format piece, such as `#[fg=blue,bold]text`.
    pub fn from_format_string(format: &str, config: &Config) -> (res: FormattedPart)
        ensures
            res@ == part_spec(format@, config@),
    {
        let s = chars_of(format);
        part_from_chars(&s, config)
    }

    /// The parts of a format string with several `#[...]` blocks.
    pub fn multiple_from_format_string(format: &str, config: &Config) -> (res: Vec<FormattedPart>)
        ensures
            parts_view(res@) == parts_spec(format@, config@),
    {
        let s = chars_of(format);
        let open = chars_of("#[");
        proof {
            reveal_strlit("#[");
        }
        let pieces = split(&s, &open);
        let ghost pv = pieces.deep_view();
        let mut res: Vec<FormattedPart> = Vec::new();
        let mut i: usize = 0;
        while i < pieces.len()
            invariant
                i <= pieces@.len(),
                pv == pieces.deep_view(),
                pv == split_seq(s@, open@),
                res@.len() == i,
                forall|k: int| 0 <= k < i ==> (#[trigger] res@[k])@ == part_spec(pv[k], config@),
            decreases pieces.len() - i,
        {
            assert(pieces[i as int]@ == pv[i as int]);
            let part = part_from_chars(&pieces[i], config);
            res.push(part);
            i += 1;
        }
        assert(parts_view(res@) =~= pv.map_values(|p: Seq<char>| part_spec(p, config@)));
        res
    }

    /// `text` in this part's style.
    pub fn format_string(&self, text: &str) -> (res: String)
        ensures
            res@ == formatted(self@.style, text@),
    {
        let mut out = render_effects(self.effects);
        if let Some(c) = self.fg {
            let code = render_fg(c);
            out.append(code.as_str());
        }
        if let Some(c) = self.bg {
            let code = render_bg(c);
            out.append(code.as_str());
        }
        out.append(text);
        let st = Style { fg: self.fg, bg: self.bg, effects: self.effects };
        if st != plain() {
            let reset = render_reset();
            out.append(reset.as_str());
        }
        assert(out@ =~= formatted(self@.style, text@));
        out
    }

    /// A copy of this part.
    pub fn duplicate(&self) -> (res: FormattedPart)
        ensures
            res@ == self@,
    {
        FormattedPart { fg: self.fg, bg: self.bg, effects: self.effects, content: self.content.clone() }
    }
}

/// A copy of a list of parts.
pub fn copy_parts(v: &Vec<FormattedPart>) -> (res: Vec<FormattedPart>)
    ensures
        parts_view(res@) == parts_view(v@),
{
    let mut res: Vec<FormattedPart> = Vec::new();
    let mut i: usize = 0;
    while i < v.len()
        invariant
            i <= v@.len(),
            res@.len() == i,
            forall|k: int| 0 <= k < i ==> (#[trigger] res@[k])@ == v@[k]@,
        decreases v.len() - i,
    {
        res.push(v[i].duplicate());
        i += 1;
    }
    assert(parts_view(res@) =~= parts_view(v@));
    res
}

} // verus!
