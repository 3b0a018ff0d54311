//! The bar's configuration: sections, precedence, palettes, and the layout
//! of the three sections across the terminal width.
use vstd::prelude::*;

use crate::config_map::{lookup, Config};
use crate::style::{
    formatted, part_spec, parts_spec, parts_view, plain_style, FormattedPart, PartView,
};
use crate::terminal::{display_width, measure_text_width};
use crate::render::{
    appended, empty_view, hits_view, widget_type, widget_type_spec, Hit, HitView, RenderedParts,
    RenderedView, Widgets, name_tabs, parts_name_tabs,
};
use crate::state::ZellijState;
use crate::tabs::{column_tab, lemma_click_geometry, lemma_tabs_fit_limit, widths};
use crate::terminal::truncated;
use crate::terminal::{ansi_stripped, strip_ansi_codes};
use crate::text::{blank, chars_of, is_blank, split, split_seq, starts_with, string_of};

verus! {

/// The three sections of the bar.
#[derive(Clone, Copy, Debug, PartialEq, Eq, PartialOrd, Ord, Structural)]
pub enum Part {
    Left,
    Center,
    Right,
}

/// Why a configuration was refused.
#[derive(Clone, Debug, PartialEq, Eq)]
pub enum ConfigError {
    /// A section name other than `l`, `c` or `r`.
    InvalidPart(String),
    /// `format_precedence` names something that is not a section.
    InvalidFormatPrecedence(String),
}

/// What an error says.
pub open spec fn error_message(e: ConfigError) -> Seq<char> {
    match e {
        ConfigError::InvalidPart(p) => "Invalid part: "@ + p@,
        ConfigError::InvalidFormatPrecedence(p) => "Invalid format_precedence: Invalid part: "@ + p@,
    }
}

impl ConfigError {
    /// What the error says.
    pub fn message(&self) -> (res: String)
        ensures
            res@ == error_message(*self),
    {
        let (mut v, p) = match self {
            ConfigError::InvalidPart(p) => (chars_of("Invalid part: "), p),
            ConfigError::InvalidFormatPrecedence(p) => (
                chars_of("Invalid format_precedence: Invalid part: "),
                p,
            ),
        };
        let c = chars_of(p.as_str());
        crate::text::append_chars(&mut v, &c);
        string_of(&v)
    }
}

/// The section a one-letter name stands for.
pub open spec fn part_named(s: Seq<char>) -> Option<Part> {
    if s == seq!['l'] {
        Some(Part::Left)
    } else if s == seq!['c'] {
        Some(Part::Center)
    } else if s == seq!['r'] {
        Some(Part::Right)
    } else {
        None
    }
}

impl Part {
    /// The section named `l`, `c` or `r`.
    pub fn from_str(part: &str) -> (res: Result<Part, ConfigError>)
        ensures
            match part_named(part@) {
                Some(p) => res == Ok::<Part, ConfigError>(p),
                None => res matches Err(ConfigError::InvalidPart(s)) && s@ == part@,
            },
    {
        let c = chars_of(part);
        if c.len() == 1 && c[0] == 'l' {
            assert(c@ =~= seq!['l']);
            Ok(Part::Left)
        } else if c.len() == 1 && c[0] == 'c' {
            assert(c@ =~= seq!['c']);
            Ok(Part::Center)
        } else if c.len() == 1 && c[0] == 'r' {
            assert(c@ =~= seq!['r']);
            Ok(Part::Right)
        } else {
            Err(ConfigError::InvalidPart(string_of(&c)))
        }
    }
}

/// When a widget has to be rendered again.
pub enum UpdateEventMask {
    Always,
    Mode,
    Tab,
    Command,
    Session,
    NoEvent,
}

impl UpdateEventMask {
    /// The bits of the mask.
    pub open spec fn spec_bits(self) -> u8 {
        match self {
            UpdateEventMask::Always => 0b1000_0000,
            UpdateEventMask::Mode => 0b0000_0001,
            UpdateEventMask::Tab => 0b0000_0011,
            UpdateEventMask::Command => 0b0000_0100,
            UpdateEventMask::Session => 0b0000_1000,
            UpdateEventMask::NoEvent => 0,
        }
    }

    pub fn bits(self) -> (res: u8)
        ensures
            res == self.spec_bits(),
    {
        match self {
            UpdateEventMask::Always => 0b1000_0000,
            UpdateEventMask::Mode => 0b0000_0001,
            UpdateEventMask::Tab => 0b0000_0011,
            UpdateEventMask::Command => 0b0000_0100,
            UpdateEventMask::Session => 0b0000_1000,
            UpdateEventMask::NoEvent => 0,
        }
    }
}

/// The events a widget depends on.
pub open spec fn event_mask_spec(name: Seq<char>) -> u8 {
    if name == "command"@ || name == "datetime"@ || name == "notifications"@ || name == "pipe"@ {
        UpdateEventMask::Always.spec_bits()
    } else if name == "mode"@ || name == "session"@ {
        UpdateEventMask::Mode.spec_bits()
    } else if name == "swap_layout"@ || name == "tabs"@ {
        UpdateEventMask::Tab.spec_bits()
    } else {
        UpdateEventMask::NoEvent.spec_bits()
    }
}

fn is_word(v: &[char], word: &str) -> (res: bool)
    ensures
        res == (v@ == word@),
{
    let w = chars_of(word);
    crate::config_map::same_chars(v, &w)
}

/// The events the widget called `name` depends on.
pub fn event_mask_from_widget_name(name: &str) -> (res: u8)
    ensures
        res == event_mask_spec(name@),
{
    let n = chars_of(name);
    if is_word(&n, "command") || is_word(&n, "datetime") || is_word(&n, "notifications")
        || is_word(&n, "pipe") {
        UpdateEventMask::Always.bits()
    } else if is_word(&n, "mode") || is_word(&n, "session") {
        UpdateEventMask::Mode.bits()
    } else if is_word(&n, "swap_layout") || is_word(&n, "tabs") {
        UpdateEventMask::Tab.bits()
    } else {
        UpdateEventMask::NoEvent.bits()
    }
}

// ---------------------------------------------------------------------------
// Host palettes
// ---------------------------------------------------------------------------

/// Whether the host terminal has a dark or a light background.
#[derive(Clone, Copy, Debug, PartialEq, Eq, Structural)]
pub enum HostTerminalThemeMode {
    Dark,
    Light,
}

/// The key that records the palette in use.
pub open spec fn mode_key() -> Seq<char> {
    "host_theme_mode"@
}

/// The prefix of the options of a palette.
pub open spec fn palette_prefix(mode: HostTerminalThemeMode) -> Seq<char> {
    match mode {
        HostTerminalThemeMode::Dark => "host_theme_dark_"@,
        HostTerminalThemeMode::Light => "host_theme_light_"@,
    }
}

/// The name of a palette.
pub open spec fn mode_name(mode: HostTerminalThemeMode) -> Seq<char> {
    match mode {
        HostTerminalThemeMode::Dark => "dark"@,
        HostTerminalThemeMode::Light => "light"@,
    }
}

/// `cfg` with the options of palette `mode` laid over the plain ones: every
/// `key` for which `<prefix>key` is set takes that value, the palette in use
/// is recorded, and all else is as configured.
pub open spec fn themed_spec(cfg: Map<Seq<char>, Seq<char>>, mode: HostTerminalThemeMode) -> Map<
    Seq<char>,
    Seq<char>,
> {
    let prefix = palette_prefix(mode);
    Map::new(
        |k: Seq<char>| k == mode_key() || cfg.contains_key(prefix + k) || cfg.contains_key(k),
        |k: Seq<char>|
            if k == mode_key() {
                mode_name(mode)
            } else if cfg.contains_key(prefix + k) {
                cfg[prefix + k]
            } else {
                cfg[k]
            },
    )
}

/// The palette the configuration asks for.
pub open spec fn configured_mode_spec(cfg: Map<Seq<char>, Seq<char>>) -> Option<
    HostTerminalThemeMode,
> {
    match lookup(cfg, mode_key()) {
        Some(v) => if v == "dark"@ {
            Some(HostTerminalThemeMode::Dark)
        } else if v == "light"@ {
            Some(HostTerminalThemeMode::Light)
        } else {
            None
        },
        None => None,
    }
}

/// `<p>k` is the key of one of the first `i` entries.
pub open spec fn overridden(es: Seq<(String, String)>, p: Seq<char>, i: int, k: Seq<char>) -> bool {
    exists|j: int| 0 <= j < i && #[trigger] es[j].0@ == p + k
}

/// `cfg` with the prefixed options among the first `i` entries laid over it.
pub open spec fn overlay(
    cfg: Map<Seq<char>, Seq<char>>,
    es: Seq<(String, String)>,
    p: Seq<char>,
    i: int,
) -> Map<Seq<char>, Seq<char>> {
    Map::new(
        |k: Seq<char>| cfg.contains_key(k) || overridden(es, p, i, k),
        |k: Seq<char>|
            if overridden(es, p, i, k) {
                cfg[p + k]
            } else {
                cfg[k]
            },
    )
}

proof fn lemma_prefix_cancel(p: Seq<char>, a: Seq<char>, b: Seq<char>)
    requires
        p + a == p + b,
    ensures
        a == b,
{
    assert((p + a).skip(p.len() as int) =~= a);
    assert((p + b).skip(p.len() as int) =~= b);
}

proof fn lemma_overlay_prefixed(
    cfg: Map<Seq<char>, Seq<char>>,
    es: Seq<(String, String)>,
    p: Seq<char>,
    i: int,
    k0: Seq<char>,
)
    requires
        0 <= i < es.len(),
        es[i].0@ == p + k0,
        cfg.contains_key(p + k0),
    ensures
        overlay(cfg, es, p, i + 1) == overlay(cfg, es, p, i).insert(k0, cfg[p + k0]),
{
    assert forall|k: Seq<char>| #[trigger] overridden(es, p, i + 1, k) == (overridden(es, p, i, k)
        || k == k0) by {
        if overridden(es, p, i + 1, k) {
            let j = choose|j: int| 0 <= j < i + 1 && #[trigger] es[j].0@ == p + k;
            if j == i {
                lemma_prefix_cancel(p, k, k0);
            } else {
                assert(overridden(es, p, i, k));
            }
        }
        if k == k0 {
            assert(es[i].0@ == p + k);
        }
        if overridden(es, p, i, k) {
            let j = choose|j: int| 0 <= j < i && #[trigger] es[j].0@ == p + k;
            assert(es[j].0@ == p + k);
        }
    }
    assert(overlay(cfg, es, p, i + 1) =~= overlay(cfg, es, p, i).insert(k0, cfg[p + k0]));
}

proof fn lemma_overlay_plain(
    cfg: Map<Seq<char>, Seq<char>>,
    es: Seq<(String, String)>,
    p: Seq<char>,
    i: int,
)
    requires
        0 <= i < es.len(),
        !starts_with(es[i].0@, p),
    ensures
        overlay(cfg, es, p, i + 1) == overlay(cfg, es, p, i),
{
    assert forall|k: Seq<char>| #[trigger] overridden(es, p, i + 1, k) == overridden(es, p, i, k) by {
        if overridden(es, p, i + 1, k) {
            let j = choose|j: int| 0 <= j < i + 1 && #[trigger] es[j].0@ == p + k;
            if j == i {
                assert((p + k).take(p.len() as int) =~= p);
            } else {
                assert(overridden(es, p, i, k));
            }
        }
        if overridden(es, p, i, k) {
            let j = choose|j: int| 0 <= j < i && #[trigger] es[j].0@ == p + k;
            assert(es[j].0@ == p + k);
        }
    }
    assert(overlay(cfg, es, p, i + 1) =~= overlay(cfg, es, p, i));
}

/// Once all entries are laid over, and the palette recorded, the result is
/// `themed_spec`.
proof fn lemma_overlay_done(
    cfg: Map<Seq<char>, Seq<char>>,
    es: Seq<(String, String)>,
    mode: HostTerminalThemeMode,
)
    requires
        cfg == crate::config_map::entries_map(es),
        crate::config_map::distinct_keys(es),
    ensures
        overlay(cfg, es, palette_prefix(mode), es.len() as int).insert(mode_key(), mode_name(mode))
            == themed_spec(cfg, mode),
{
    let p = palette_prefix(mode);
    crate::config_map::lemma_entries_map(es);
    assert forall|k: Seq<char>| #[trigger] overridden(es, p, es.len() as int, k)
        == cfg.contains_key(p + k) by {
        if cfg.contains_key(p + k) {
            let j = choose|j: int| 0 <= j < es.len() && es[j].0@ == p + k;
            assert(es[j].0@ == p + k);
        }
        if overridden(es, p, es.len() as int, k) {
            let j = choose|j: int| 0 <= j < es.len() && #[trigger] es[j].0@ == p + k;
            assert(cfg.contains_key(es[j].0@));
        }
    }
    assert(overlay(cfg, es, p, es.len() as int).insert(mode_key(), mode_name(mode)) =~= themed_spec(
        cfg,
        mode,
    ));
}

/// The configuration with the options of palette `mode` laid over the plain
/// ones.
pub fn host_theme_configuration(config: &Config, mode: HostTerminalThemeMode) -> (res: Config)
    ensures
        res@ == themed_spec(config@, mode),
{
    let prefix = match mode {
        HostTerminalThemeMode::Dark => chars_of("host_theme_dark_"),
        HostTerminalThemeMode::Light => chars_of("host_theme_light_"),
    };
    let ghost cfg = config@;
    let n = config.len();
    let ghost es = config.entries_seq();
    let mut themed = config.duplicate();
    assert(themed@ =~= overlay(cfg, es, prefix@, 0));
    let mut i: usize = 0;
    while i < n
        invariant
            i <= n,
            n == es.len(),
            cfg == config@,
            es == config.entries_seq(),
            prefix@ == palette_prefix(mode),
            crate::config_map::distinct_keys(es),
            cfg == crate::config_map::entries_map(es),
            themed@ == overlay(cfg, es, prefix@, i as int),
        decreases n - i,
    {
        proof {
            crate::config_map::lemma_entries_map(es);
        }
        let key = chars_of(config.key_at(i).as_str());
        if crate::text::has_prefix(&key, &prefix) {
            let stripped = crate::text::copy_range(&key, prefix.len(), key.len());
            assert(key@ =~= prefix@ + stripped@);
            assert(cfg.contains_key(es[i as int].0@));
            proof {
                lemma_overlay_prefixed(cfg, es, prefix@, i as int, stripped@);
            }
            themed.insert(string_of(&stripped), config.value_at(i).clone());
        } else {
            proof {
                lemma_overlay_plain(cfg, es, prefix@, i as int);
            }
        }
        i += 1;
    }
    let name = match mode {
        HostTerminalThemeMode::Dark => "dark",
        HostTerminalThemeMode::Light => "light",
    };
    themed.insert(string_of(&chars_of("host_theme_mode")), string_of(&chars_of(name)));
    proof {
        lemma_overlay_done(cfg, es, mode);
    }
    themed
}

/// The palette the configuration asks for with `host_theme_mode`.
pub fn configured_host_theme_mode(config: &Config) -> (res: Option<HostTerminalThemeMode>)
    ensures
        res == configured_mode_spec(config@),
{
    if config.is_set_to("host_theme_mode", "dark") {
        Some(HostTerminalThemeMode::Dark)
    } else if config.is_set_to("host_theme_mode", "light") {
        Some(HostTerminalThemeMode::Light)
    } else {
        None
    }
}

/// After a palette is laid over the configuration, the configuration asks for
/// that palette.
pub proof fn lemma_themed_mode(cfg: Map<Seq<char>, Seq<char>>, mode: HostTerminalThemeMode)
    ensures
        configured_mode_spec(themed_spec(cfg, mode)) == Some(mode),
{
    reveal_strlit("dark");
    reveal_strlit("light");
    assert(themed_spec(cfg, mode).contains_key(mode_key()));
    assert("dark"@ != "light"@) by {
        assert("dark"@[0] != "light"@[0]);
    }
}

/// Laying palette `mode` over the configuration never reads the options of
/// the other palette: configurations that agree on all keys but the other
/// palette's give the same result.
pub proof fn lemma_other_palette_ignored(
    a: Map<Seq<char>, Seq<char>>,
    b: Map<Seq<char>, Seq<char>>,
    mode: HostTerminalThemeMode,
)
    requires
        forall|k: Seq<char>|
            !starts_with(k, palette_prefix(other_mode(mode))) ==> (#[trigger] a.contains_key(k)
                == b.contains_key(k) && (a.contains_key(k) ==> a[k] == b[k])),
    ensures
        forall|k: Seq<char>|
            !starts_with(k, palette_prefix(other_mode(mode))) && k != mode_key() ==> (
            #[trigger] themed_spec(a, mode).contains_key(k) == themed_spec(b, mode).contains_key(k)
                && (themed_spec(a, mode).contains_key(k) ==> themed_spec(a, mode)[k] == themed_spec(
                b,
                mode,
            )[k])),
{
    reveal_strlit("host_theme_dark_");
    reveal_strlit("host_theme_light_");
    assert forall|k: Seq<char>|
        !starts_with(k, palette_prefix(other_mode(mode))) && k != mode_key() implies (
        #[trigger] themed_spec(a, mode).contains_key(k) == themed_spec(b, mode).contains_key(k) && (
        themed_spec(a, mode).contains_key(k) ==> themed_spec(a, mode)[k] == themed_spec(b, mode)[k]))
        by {
        let p = palette_prefix(mode);
        let q = palette_prefix(other_mode(mode));
        // `<p>k` never starts with the other palette's prefix
        assert(!starts_with(p + k, q)) by {
            assert((p + k)[11] == p[11]);
            assert(p[11] != q[11]);
        }
        assert(a.contains_key(p + k) == b.contains_key(p + k));
    }
}

/// The palette that is not `mode`.
pub open spec fn other_mode(mode: HostTerminalThemeMode) -> HostTerminalThemeMode {
    match mode {
        HostTerminalThemeMode::Dark => HostTerminalThemeMode::Light,
        HostTerminalThemeMode::Light => HostTerminalThemeMode::Dark,
    }
}

// ---------------------------------------------------------------------------
// The module configuration
// ---------------------------------------------------------------------------

/// The sections named by the letters of `s`, in order; the first letter that
/// names no section is refused.
pub open spec fn precedence_spec(s: Seq<char>) -> Result<Seq<Part>, Seq<char>>
    decreases s.len(),
{
    if s.len() == 0 {
        Ok(seq![])
    } else {
        match precedence_spec(s.drop_last()) {
            Err(e) => Err(e),
            Ok(ps) => match part_named(seq![s.last()]) {
                Some(p) => Ok(ps.push(p)),
                None => Err(seq![s.last()]),
            },
        }
    }
}

/// The parts of a configured format: none when it is missing or empty.
pub open spec fn parts_from_spec(format: Option<Seq<char>>, cfg: Map<Seq<char>, Seq<char>>) -> Seq<
    PartView,
> {
    match format {
        Some(f) => if f.len() == 0 {
            seq![]
        } else {
            parts_spec(f, cfg)
        },
        None => seq![],
    }
}

/// The value of `key`, or nothing.
pub open spec fn or_empty(cfg: Map<Seq<char>, Seq<char>>, key: Seq<char>) -> Seq<char> {
    match lookup(cfg, key) {
        Some(v) => v,
        None => seq![],
    }
}

/// `key` is set to `true`.
pub open spec fn flag(cfg: Map<Seq<char>, Seq<char>>, key: Seq<char>) -> bool {
    lookup(cfg, key) == Some("true"@)
}

/// The right section cut into segments at each `{segment}`.
pub open spec fn segments_spec(right: Seq<char>, cfg: Map<Seq<char>, Seq<char>>) -> Seq<
    Seq<PartView>,
> {
    split_seq(right, "{segment}"@).map_values(|s: Seq<char>| parts_spec(s, cfg))
}

pub open spec fn segments_view(o: Option<Vec<Vec<FormattedPart>>>) -> Option<Seq<Seq<PartView>>> {
    match o {
        Some(v) => Some(v@.map_values(|x: Vec<FormattedPart>| parts_view(x@))),
        None => None,
    }
}

/// The sections of the bar and how they are laid out.
pub struct ModuleConfig {
    pub left_parts_config: String,
    pub left_parts: Vec<FormattedPart>,
    pub center_parts_config: String,
    pub center_parts: Vec<FormattedPart>,
    pub right_parts_config: String,
    pub right_parts: Vec<FormattedPart>,
    pub right_segments: Option<Vec<Vec<FormattedPart>>>,
    pub right_separator: Vec<FormattedPart>,
    pub format_space: FormattedPart,
    pub hide_frame_for_single_pane: bool,
    pub hide_frame_except_for_search: bool,
    pub hide_frame_except_for_fullscreen: bool,
    pub hide_frame_except_for_scroll: bool,
    pub format_precedence: Vec<Part>,
    pub hide_on_overlength: bool,
}

/// The name in `format_precedence` that is not a section, if there is one.
pub open spec fn precedence_error(cfg: Map<Seq<char>, Seq<char>>) -> Option<Seq<char>> {
    match lookup(cfg, "format_precedence"@) {
        Some(p) => match precedence_spec(p) {
            Err(e) => Some(e),
            Ok(_) => None,
        },
        None => None,
    }
}

impl Default for ModuleConfig {
    /// A bar with no section configured.
    fn default() -> (res: ModuleConfig)
        ensures
            res.unconfigured(),
            res.left_parts_config@.len() == 0,
            res.center_parts_config@.len() == 0,
            res.right_parts_config@.len() == 0,
            res.right_separator@.len() == 0,
            res.format_space@ == (PartView { style: plain_style(), content: seq![] }),
            !res.hide_frame_for_single_pane,
            !res.hide_frame_except_for_search,
            !res.hide_frame_except_for_fullscreen,
            !res.hide_frame_except_for_scroll,
            res.format_precedence@.len() == 0,
            !res.hide_on_overlength,
    {
        ModuleConfig {
            left_parts_config: String::new(),
            left_parts: Vec::new(),
            center_parts_config: String::new(),
            center_parts: Vec::new(),
            right_parts_config: String::new(),
            right_parts: Vec::new(),
            right_segments: None,
            right_separator: Vec::new(),
            format_space: FormattedPart {
                fg: None,
                bg: None,
                effects: crate::style::plain().effects,
                content: String::new(),
            },
            hide_frame_for_single_pane: false,
            hide_frame_except_for_search: false,
            hide_frame_except_for_fullscreen: false,
            hide_frame_except_for_scroll: false,
            format_precedence: Vec::new(),
            hide_on_overlength: false,
        }
    }
}

/// The parts of a configured format.
fn parts_from_config(format: Option<&String>, config: &Config) -> (res: Vec<FormattedPart>)
    ensures
        parts_view(res@) == parts_from_spec(
            match format {
                Some(f) => Some(f@),
                None => None,
            },
            config@,
        ),
{
    match format {
        Some(format) => {
            if format.as_str().unicode_len() == 0 {
                let v: Vec<FormattedPart> = Vec::new();
                assert(parts_view(v@) =~= Seq::<PartView>::empty());
                v
            } else {
                FormattedPart::multiple_from_format_string(format.as_str(), config)
            }
        },
        None => {
            let v: Vec<FormattedPart> = Vec::new();
            assert(parts_view(v@) =~= Seq::<PartView>::empty());
            v
        },
    }
}

fn value_or_empty(config: &Config, key: &str) -> (res: String)
    ensures
        res@ == or_empty(config@, key@),
{
    match config.get(key) {
        Some(v) => v.clone(),
        None => String::new(),
    }
}

fn parse_precedence(s: &str) -> (res: Result<Vec<Part>, String>)
    ensures
        match precedence_spec(s@) {
            Ok(ps) => res matches Ok(v) && v@ == ps,
            Err(e) => res matches Err(m) && m@ == e,
        },
{
    let c = chars_of(s);
    let mut parts: Vec<Part> = Vec::new();
    let mut i: usize = 0;
    while i < c.len()
        invariant
            i <= c@.len(),
            c@ == s@,
            precedence_spec(c@.take(i as int)) == Ok::<Seq<Part>, Seq<char>>(parts@),
        decreases c.len() - i,
    {
        let mut one: Vec<char> = Vec::new();
        one.push(c[i]);
        let letter = string_of(&one);
        assert(c@.take(i + 1).drop_last() =~= c@.take(i as int));
        assert(one@ =~= seq![c@.take(i + 1).last()]);
        match Part::from_str(letter.as_str()) {
            Ok(p) => {
                parts.push(p);
            },
            Err(_) => {
                proof {
                    lemma_precedence_prefix_err(c@, i as int + 1);
                }
                return Err(letter);
            },
        }
        i += 1;
    }
    assert(c@.take(c@.len() as int) =~= c@);
    Ok(parts)
}

/// An error in a prefix is the error of the whole.
proof fn lemma_precedence_prefix_err(s: Seq<char>, i: int)
    requires
        0 <= i <= s.len(),
        precedence_spec(s.take(i)) is Err,
    ensures
        precedence_spec(s) == precedence_spec(s.take(i)),
    decreases s.len() - i,
{
    if i < s.len() {
        assert(s.take(i + 1).drop_last() =~= s.take(i));
        lemma_precedence_prefix_err(s, i + 1);
    } else {
        assert(s.take(i) =~= s);
    }
}

fn segments(right: &String, config: &Config) -> (res: Vec<Vec<FormattedPart>>)
    ensures
        res@.map_values(|x: Vec<FormattedPart>| parts_view(x@)) == segments_spec(right@, config@),
{
    proof {
        reveal_strlit("{segment}");
    }
    let r = chars_of(right.as_str());
    let sep = chars_of("{segment}");
    let pieces = split(&r, &sep);
    let ghost pv = pieces.deep_view();
    let mut res: Vec<Vec<FormattedPart>> = Vec::new();
    let mut i: usize = 0;
    while i < pieces.len()
        invariant
            i <= pieces@.len(),
            pv == pieces.deep_view(),
            res@.len() == i,
            forall|k: int|
                0 <= k < i ==> parts_view((#[trigger] res@[k])@) == parts_spec(pv[k], config@),
        decreases pieces.len() - i,
    {
        assert(pieces[i as int]@ == pv[i as int]);
        let text = string_of(&pieces[i]);
        res.push(FormattedPart::multiple_from_format_string(text.as_str(), config));
        i += 1;
    }
    assert(res@.map_values(|x: Vec<FormattedPart>| parts_view(x@)) =~= segments_spec(right@, config@));
    res
}

impl ModuleConfig {
    /// The sections and settings are the ones `cfg` configures.
    pub open spec fn configured_by(self, cfg: Map<Seq<char>, Seq<char>>) -> bool {
        let left = or_empty(cfg, "format_left"@);
        let center = or_empty(cfg, "format_center"@);
        let right = or_empty(cfg, "format_right"@);
        let has_separator = cfg.contains_key("format_right_separator"@);
        &&& self.left_parts_config@ == left
        &&& parts_view(self.left_parts@) == parts_from_spec(Some(left), cfg)
        &&& self.center_parts_config@ == center
        &&& parts_view(self.center_parts@) == parts_from_spec(Some(center), cfg)
        &&& self.right_parts_config@ == right
        &&& parts_view(self.right_parts@) == (if has_separator {
            seq![]
        } else {
            parts_from_spec(Some(right), cfg)
        })
        &&& segments_view(self.right_segments) == (if has_separator {
            Some(segments_spec(right, cfg))
        } else {
            None
        })
        &&& parts_view(self.right_separator@) == parts_from_spec(
            lookup(cfg, "format_right_separator"@),
            cfg,
        )
        &&& self.format_space@ == part_spec(or_empty(cfg, "format_space"@), cfg)
        &&& self.hide_frame_for_single_pane == flag(cfg, "hide_frame_for_single_pane"@)
        &&& self.hide_frame_except_for_search == flag(cfg, "hide_frame_except_for_search"@)
        &&& self.hide_frame_except_for_fullscreen == flag(
            cfg,
            "hide_frame_except_for_fullscreen"@,
        )
        &&& self.hide_frame_except_for_scroll == flag(cfg, "hide_frame_except_for_scroll"@)
        &&& self.hide_on_overlength == flag(cfg, "format_hide_on_overlength"@)
        &&& self.format_precedence@ == match lookup(cfg, "format_precedence"@) {
            Some(p) => precedence_spec(p)->Ok_0,
            None => seq![Part::Left, Part::Center, Part::Right],
        }
    }

    /// The configuration of the bar; refused when `format_precedence` names
    /// something that is not a section.
    pub fn new(config: &Config) -> (res: Result<Self, ConfigError>)
        ensures
            match precedence_error(config@) {
                Some(e) => res matches Err(ConfigError::InvalidFormatPrecedence(m)) && m@ == e,
                None => res matches Ok(mc) && mc.configured_by(config@),
            },
    {
        let format_space_config = value_or_empty(config, "format_space");
        let hide_frame_for_single_pane = config.is_set_to("hide_frame_for_single_pane", "true");
        let hide_frame_except_for_search = config.is_set_to("hide_frame_except_for_search", "true");
        let hide_frame_except_for_fullscreen = config.is_set_to(
            "hide_frame_except_for_fullscreen",
            "true",
        );
        let hide_frame_except_for_scroll = config.is_set_to("hide_frame_except_for_scroll", "true");
        let left_parts_config = value_or_empty(config, "format_left");
        let right_parts_config = value_or_empty(config, "format_right");
        let center_parts_config = value_or_empty(config, "format_center");
        let format_precedence = match config.get("format_precedence") {
            Some(conf) => match parse_precedence(conf.as_str()) {
                Ok(prec) => prec,
                Err(e) => {
                    return Err(ConfigError::InvalidFormatPrecedence(e));
                },
            },
            None => {
                let mut v: Vec<Part> = Vec::new();
                v.push(Part::Left);
                v.push(Part::Center);
                v.push(Part::Right);
                assert(v@ =~= seq![Part::Left, Part::Center, Part::Right]);
                v
            },
        };
        let hide_on_overlength = config.is_set_to("format_hide_on_overlength", "true");
        let has_separator = config.contains_key("format_right_separator");
        let left_parts = parts_from_config(Some(&left_parts_config), config);
        let center_parts = parts_from_config(Some(&center_parts_config), config);
        let right_parts = if has_separator {
            let v: Vec<FormattedPart> = Vec::new();
            assert(parts_view(v@) =~= Seq::<PartView>::empty());
            v
        } else {
            parts_from_config(Some(&right_parts_config), config)
        };
        let right_segments = if has_separator {
            Some(segments(&right_parts_config, config))
        } else {
            None
        };
        let right_separator = parts_from_config(config.get("format_right_separator"), config);
        let format_space = FormattedPart::from_format_string(format_space_config.as_str(), config);
        Ok(
            ModuleConfig {
                left_parts_config,
                left_parts,
                center_parts_config,
                center_parts,
                right_parts_config,
                right_parts,
                right_segments,
                right_separator,
                format_space,
                hide_frame_for_single_pane,
                hide_frame_except_for_search,
                hide_frame_except_for_fullscreen,
                hide_frame_except_for_scroll,
                format_precedence,
                hide_on_overlength,
            },
        )
    }
}

/// Each section is drawn from the format configured for it: `format_left`
/// and `format_center` give the left and center sections, and `format_right`
/// the right one, cut into segments at each `{segment}` when
/// `format_right_separator` is set, which then gives the separator; a
/// section whose format is missing or empty draws nothing. Each setting is
/// on exactly when its key is set to `true`, and the sections rank left,
/// center, right unless `format_precedence` ranks them.
pub proof fn lemma_sections_configured(mc: ModuleConfig, cfg: Map<Seq<char>, Seq<char>>)
    requires
        mc.configured_by(cfg),
    ensures
        or_empty(cfg, "format_left"@).len() > 0 ==> parts_view(mc.left_parts@) == parts_spec(
            or_empty(cfg, "format_left"@),
            cfg,
        ),
        or_empty(cfg, "format_left"@).len() == 0 ==> mc.left_parts@.len() == 0,
        or_empty(cfg, "format_center"@).len() > 0 ==> parts_view(mc.center_parts@) == parts_spec(
            or_empty(cfg, "format_center"@),
            cfg,
        ),
        or_empty(cfg, "format_center"@).len() == 0 ==> mc.center_parts@.len() == 0,
        !cfg.contains_key("format_right_separator"@) ==> {
            &&& mc.right_segments is None
            &&& or_empty(cfg, "format_right"@).len() > 0 ==> parts_view(mc.right_parts@)
                == parts_spec(or_empty(cfg, "format_right"@), cfg)
            &&& or_empty(cfg, "format_right"@).len() == 0 ==> mc.right_parts@.len() == 0
        },
        cfg.contains_key("format_right_separator"@) ==> {
            let pieces = split_seq(or_empty(cfg, "format_right"@), "{segment}"@);
            &&& mc.right_parts@.len() == 0
            &&& (mc.right_segments matches Some(segs) && segs@.len() == pieces.len() && forall|k: int|
                0 <= k < pieces.len() ==> parts_view(#[trigger] segs@[k]@) == parts_spec(
                    pieces[k],
                    cfg,
                ))
            &&& cfg["format_right_separator"@].len() > 0 ==> parts_view(mc.right_separator@)
                == parts_spec(cfg["format_right_separator"@], cfg)
        },
        mc.hide_on_overlength <==> lookup(cfg, "format_hide_on_overlength"@) == Some("true"@),
        mc.hide_frame_for_single_pane <==> lookup(cfg, "hide_frame_for_single_pane"@) == Some(
            "true"@,
        ),
        mc.hide_frame_except_for_search <==> lookup(cfg, "hide_frame_except_for_search"@) == Some(
            "true"@,
        ),
        mc.hide_frame_except_for_fullscreen <==> lookup(cfg, "hide_frame_except_for_fullscreen"@)
            == Some("true"@),
        mc.hide_frame_except_for_scroll <==> lookup(cfg, "hide_frame_except_for_scroll"@) == Some(
            "true"@,
        ),
        lookup(cfg, "format_precedence"@) is None ==> mc.format_precedence@ == seq![
            Part::Left,
            Part::Center,
            Part::Right,
        ],
{
    assert(parts_view(mc.left_parts@).len() == mc.left_parts@.len());
    assert(parts_view(mc.center_parts@).len() == mc.center_parts@.len());
    assert(parts_view(mc.right_parts@).len() == mc.right_parts@.len());
    if cfg.contains_key("format_right_separator"@) {
        let pieces = split_seq(or_empty(cfg, "format_right"@), "{segment}"@);
        let segs = mc.right_segments->0;
        assert(segments_view(mc.right_segments) == Some(segments_spec(or_empty(cfg, "format_right"@), cfg)));
        assert(segs@.map_values(|x: Vec<FormattedPart>| parts_view(x@)) == pieces.map_values(
            |s: Seq<char>| parts_spec(s, cfg),
        ));
        assert forall|k: int| 0 <= k < pieces.len() implies parts_view(#[trigger] segs@[k]@)
            == parts_spec(pieces[k], cfg) by {
            assert(segs@.map_values(|x: Vec<FormattedPart>| parts_view(x@))[k] == parts_view(segs@[k]@));
        }
    }
}

/// The spaces between the sections are drawn in the style of
/// `format_space`: a spacer of `n` columns is `n` spaces formatted with the
/// style of the part that `format_space` configures, or of the empty part
/// when it is not set.
pub proof fn lemma_spacer_styled_by_config(mc: ModuleConfig, cfg: Map<Seq<char>, Seq<char>>, n: nat)
    requires
        mc.configured_by(cfg),
    ensures
        lookup(cfg, "format_space"@) matches Some(v) ==> mc.format_space@ == part_spec(v, cfg)
            && mc.spacer_text(n) == formatted(part_spec(v, cfg).style, spaces(n)),
        lookup(cfg, "format_space"@) is None ==> mc.spacer_text(n) == formatted(
            part_spec(seq![], cfg).style,
            spaces(n),
        ),
{
}

// ---------------------------------------------------------------------------
// Layout
// ---------------------------------------------------------------------------

pub open spec fn sat_sub(x: nat, y: nat) -> nat {
    if x >= y {
        (x - y) as nat
    } else {
        0
    }
}

/// Section `a` would run into section `b`, given their widths.
pub open spec fn overlaps(a: Part, b: Part, wa: nat, wb: nat, cols: nat) -> bool {
    let center = cols / 2;
    match (a, b) {
        (Part::Left, Part::Right) => wa + wb > cols,
        (Part::Right, Part::Left) => wa + wb > cols,
        (Part::Left, Part::Center) => wa > sat_sub(center, wb / 2),
        (Part::Center, Part::Left) => wb > sat_sub(center, wa / 2),
        (Part::Right, Part::Center) => wa > sat_sub(center, wb / 2),
        (Part::Center, Part::Right) => wb > sat_sub(center, wa / 2),
        _ => false,
    }
}

/// The texts of the three sections.
pub struct Sections {
    pub left: Seq<char>,
    pub center: Seq<char>,
    pub right: Seq<char>,
}

pub open spec fn section(t: Sections, p: Part) -> Seq<char> {
    match p {
        Part::Left => t.left,
        Part::Center => t.center,
        Part::Right => t.right,
    }
}

pub open spec fn cleared(t: Sections, p: Part) -> Sections {
    match p {
        Part::Left => Sections { left: seq![], ..t },
        Part::Center => Sections { center: seq![], ..t },
        Part::Right => Sections { right: seq![], ..t },
    }
}

/// Section `a` is hidden when it runs into section `b`.
pub open spec fn yield_step(t: Sections, a: Part, b: Part, cols: nat) -> Sections {
    if overlaps(
        a,
        b,
        display_width(section(t, a)) as nat,
        display_width(section(t, b)) as nat,
        cols,
    ) {
        cleared(t, a)
    } else {
        t
    }
}

/// The sections after the lower-ranked ones give way: the last-ranked to the
/// second, the second to the first, the last to the first.
pub open spec fn trim_spec(prec: Seq<Part>, t: Sections, cols: nat) -> Sections {
    let t1 = yield_step(t, prec[2], prec[1], cols);
    let t2 = yield_step(t1, prec[1], prec[0], cols);
    yield_step(t2, prec[2], prec[0], cols)
}

pub open spec fn sections_of(l: Seq<char>, c: Seq<char>, r: Seq<char>) -> Sections {
    Sections { left: l, center: c, right: r }
}

/// `n` spaces.
pub open spec fn spaces(n: nat) -> Seq<char> {
    Seq::new(n, |i: int| ' ')
}

/// The spaces between the left and the centre section.
pub open spec fn left_gap(wl: nat, wc: nat, cols: nat) -> nat {
    sat_sub(cols / 2, wl + wc / 2)
}

/// The spaces between the centre and the right section.
pub open spec fn right_gap(wr: nat, wc: nat, cols: nat) -> nat {
    sat_sub((cols + 1) / 2, wr + (wc + 1) / 2)
}

/// The spaces between the left and the right section.
pub open spec fn gap(wl: nat, wr: nat, cols: nat) -> nat {
    sat_sub(cols, wl + wr)
}

/// The section texts with the section `p` cleared, as strings.
fn clear_section(l: &mut String, c: &mut String, r: &mut String, p: Part)
    ensures
        cleared(sections_of(old(l)@, old(c)@, old(r)@), p) == sections_of(final(l)@, final(c)@, final(r)@),
{
    match p {
        Part::Left => {
            *l = String::new();
        },
        Part::Center => {
            *c = String::new();
        },
        Part::Right => {
            *r = String::new();
        },
    }
}

fn section_width(l: &String, c: &String, r: &String, p: Part) -> (res: usize)
    ensures
        res == display_width(section(sections_of(l@, c@, r@), p)),
{
    match p {
        Part::Left => measure_text_width(l.as_str()),
        Part::Center => measure_text_width(c.as_str()),
        Part::Right => measure_text_width(r.as_str()),
    }
}

fn overlap(a: Part, b: Part, wa: usize, wb: usize, cols: usize) -> (res: bool)
    ensures
        res == overlaps(a, b, wa as nat, wb as nat, cols as nat),
{
    let center = cols / 2;
    match (a, b) {
        (Part::Left, Part::Right) | (Part::Right, Part::Left) => (wa as u128) + (wb as u128) > (cols as u128),
        (Part::Left, Part::Center) | (Part::Right, Part::Center) => wa > center.saturating_sub(wb / 2),
        (Part::Center, Part::Left) | (Part::Center, Part::Right) => wb > center.saturating_sub(wa / 2),
        _ => false,
    }
}

/// `n` spaces.
fn space_string(n: usize) -> (res: String)
    ensures
        res@ == spaces(n as nat),
{
    let mut v: Vec<char> = Vec::new();
    let mut i: usize = 0;
    while i < n
        invariant
            i <= n,
            v@ == spaces(i as nat),
        decreases n - i,
    {
        v.push(' ');
        i += 1;
        assert(v@ =~= spaces(i as nat));
    }
    string_of(&v)
}

impl ModuleConfig {
    /// The sections left after the lower-ranked ones gave way to those they
    /// run into.
    pub fn trim_output(&self, output_left: &str, output_center: &str, output_right: &str, cols: usize) -> (res: (
        String,
        String,
        String,
    ))
        requires
            self.format_precedence@.len() >= 3,
        ensures
            sections_of(res.0@, res.1@, res.2@) == trim_spec(
                self.format_precedence@,
                sections_of(output_left@, output_center@, output_right@),
                cols as nat,
            ),
    {
        let mut l = string_of(&chars_of(output_left));
        let mut c = string_of(&chars_of(output_center));
        let mut r = string_of(&chars_of(output_right));
        let p0 = self.format_precedence[0];
        let p1 = self.format_precedence[1];
        let p2 = self.format_precedence[2];
        let combinations = [(p2, p1), (p1, p0), (p2, p0)];
        let ghost t0 = sections_of(l@, c@, r@);
        let mut i: usize = 0;
        while i < 3
            invariant
                i <= 3,
                combinations@ == seq![(p2, p1), (p1, p0), (p2, p0)],
                sections_of(l@, c@, r@) == if i == 0 {
                    t0
                } else if i == 1 {
                    yield_step(t0, p2, p1, cols as nat)
                } else if i == 2 {
                    yield_step(yield_step(t0, p2, p1, cols as nat), p1, p0, cols as nat)
                } else {
                    trim_spec(seq![p0, p1, p2], t0, cols as nat)
                },
            decreases 3 - i,
        {
            let (a, b) = combinations[i];
            let wa = section_width(&l, &c, &r, a);
            let wb = section_width(&l, &c, &r, b);
            if overlap(a, b, wa, wb, cols) {
                clear_section(&mut l, &mut c, &mut r, a);
            }
            i += 1;
        }
        assert(self.format_precedence@[0] == p0 && self.format_precedence@[1] == p1
            && self.format_precedence@[2] == p2);
        (l, c, r)
    }

    /// The spaces, in the space format, between the left and the centre
    /// section.
    pub fn get_spacer_left(&self, output_left: &str, output_center: &str, cols: usize) -> (res: String)
        ensures
            res@ == formatted(
                self.format_space@.style,
                spaces(
                    left_gap(
                        display_width(output_left@) as nat,
                        display_width(output_center@) as nat,
                        cols as nat,
                    ),
                ),
            ),
    {
        let text_count = measure_text_width(output_left) as u128 + (measure_text_width(output_center)
            / 2) as u128;
        let center_pos = (cols / 2) as u128;
        let space_count = if center_pos >= text_count {
            (center_pos - text_count) as usize
        } else {
            0
        };
        let spaces = space_string(space_count);
        self.format_space.format_string(spaces.as_str())
    }

    /// The spaces, in the space format, between the centre and the right
    /// section.
    pub fn get_spacer_right(&self, output_right: &str, output_center: &str, cols: usize) -> (res: String)
        ensures
            res@ == formatted(
                self.format_space@.style,
                spaces(
                    right_gap(
                        display_width(output_right@) as nat,
                        display_width(output_center@) as nat,
                        cols as nat,
                    ),
                ),
            ),
    {
        let wc = measure_text_width(output_center) as u128;
        let text_count = measure_text_width(output_right) as u128 + (wc + 1) / 2;
        let center_pos = (cols as u128 + 1) / 2;
        let space_count = if center_pos >= text_count {
            (center_pos - text_count) as usize
        } else {
            0
        };
        let spaces = space_string(space_count);
        self.format_space.format_string(spaces.as_str())
    }

    /// The spaces, in the space format, between the left and the right
    /// section.
    pub fn get_spacer(&self, output_left: &str, output_right: &str, cols: usize) -> (res: String)
        ensures
            res@ == formatted(
                self.format_space@.style,
                spaces(
                    gap(
                        display_width(output_left@) as nat,
                        display_width(output_right@) as nat,
                        cols as nat,
                    ),
                ),
            ),
    {
        let text_count = measure_text_width(output_left) as u128 + measure_text_width(output_right) as u128;
        let space_count = if cols as u128 >= text_count {
            (cols as u128 - text_count) as usize
        } else {
            0
        };
        let spaces = space_string(space_count);
        self.format_space.format_string(spaces.as_str())
    }
}

/// With the centre section shown and the sections fitting their halves, the
/// sections and the two gaps fill the width exactly.
pub proof fn lemma_three_sections_fill(wl: nat, wc: nat, wr: nat, cols: nat)
    requires
        wl + wc / 2 <= cols / 2,
        wr + (wc + 1) / 2 <= (cols + 1) / 2,
    ensures
        wl + left_gap(wl, wc, cols) + wc + right_gap(wr, wc, cols) + wr == cols,
{
    assert(wc / 2 + (wc + 1) / 2 == wc);
    assert(cols / 2 + (cols + 1) / 2 == cols);
}

/// With two sections that fit side by side, they and the gap fill the width
/// exactly.
pub proof fn lemma_two_sections_fill(wl: nat, wr: nat, cols: nat)
    requires
        wl + wr <= cols,
    ensures
        wl + gap(wl, wr, cols) + wr == cols,
{
}

// ---------------------------------------------------------------------------
// Rendering the bar
// ---------------------------------------------------------------------------

/// The columns the tab list takes among `hits`.
pub open spec fn tabs_width(hits: Seq<HitView>) -> nat
    decreases hits.len(),
{
    if hits.len() == 0 {
        0
    } else {
        tabs_width(hits.drop_last()) + (if hits.last().0 == "tabs"@ {
            sat_sub(hits.last().2 as nat, hits.last().1 as nat)
        } else {
            0
        })
    }
}

/// The state with the tab list limited to `limit` columns (or not limited).
pub open spec fn with_limit(st: ZellijState, limit: Option<usize>) -> ZellijState {
    ZellijState { tab_width_limit: limit, ..st }
}

/// A section hidden by trimming is drawn as nothing.
pub open spec fn kept(v: RenderedView, trimmed: Seq<char>) -> RenderedView {
    if trimmed.len() == 0 {
        empty_view()
    } else {
        v
    }
}

/// The message shown when no section is configured.
pub open spec fn no_configuration_message() -> Seq<char> {
    "No configuration found. See https://github.com/dj95/zjstatus/wiki/3-%E2%80%90-Configuration for more info"@
}

/// What a click on the bar does.
#[derive(Clone, Debug, PartialEq, Eq)]
pub enum ClickAction {
    /// Switch to the tab with this 1-based position.
    SwitchTab(u32),
    /// Deliver the click to the widget instance with this name, at this
    /// column of its output.
    Widget(String, usize),
    /// Nothing.
    Nothing,
}

/// The mouse events of the host.
#[derive(Clone, Copy, Debug, PartialEq, Eq, Structural)]
pub enum Mouse {
    ScrollUp(usize),
    ScrollDown(usize),
    ScrollLeft(usize),
    ScrollRight(usize),
    LeftClick(isize, usize),
    RightClick(isize, usize),
    Hold(isize, usize),
    Release(isize, usize),
    Hover(isize, usize),
}

/// The first hit that covers column `col`.
pub open spec fn hit_at(hits: Seq<HitView>, col: nat) -> Option<HitView>
    decreases hits.len(),
{
    if hits.len() == 0 {
        None
    } else if hits[0].1 <= col && col < hits[0].2 {
        Some(hits[0])
    } else {
        hit_at(hits.skip(1), col)
    }
}

/// The widget hit by a click at `col` of a section drawn from `offset` on,
/// with the column within that widget.
pub open spec fn section_click(v: RenderedView, offset: nat, col: nat) -> Option<(Seq<char>, nat)> {
    if col >= offset {
        match hit_at(v.hits, (col - offset) as nat) {
            Some(h) => Some((h.0, (col - offset - h.1) as nat)),
            None => None,
        }
    } else {
        None
    }
}

/// The view of a click action.
pub open spec fn action_view(a: ClickAction) -> Option<(Option<u32>, Seq<char>, usize)> {
    match a {
        ClickAction::SwitchTab(t) => Some((Some(t), seq![], 0)),
        ClickAction::Widget(name, col) => Some((None, name@, col)),
        ClickAction::Nothing => None,
    }
}

impl ModuleConfig {
    /// The right segments, in order, that fit into `available` columns; blank
    /// segments are skipped, and the separator goes between those shown.
    pub open spec fn fit_segments(
        self,
        w: Widgets,
        st: ZellijState,
        segs: Seq<Vec<FormattedPart>>,
        k: int,
        right: RenderedView,
        available: nat,
    ) -> RenderedView
        decreases segs.len() - k,
    {
        if k < 0 || k >= segs.len() {
            right
        } else {
            let part = w.render_spec(st, segs[k]@);
            if is_blank(ansi_stripped(part.output)) {
                self.fit_segments(w, st, segs, k + 1, right, available)
            } else {
                let sep = if right.output.len() == 0 {
                    empty_view()
                } else {
                    w.render_spec(st, self.right_separator@)
                };
                if display_width(right.output) + display_width(sep.output) + display_width(
                    part.output,
                ) > available {
                    right
                } else {
                    self.fit_segments(w, st, segs, k + 1, appended(appended(right, sep), part), available)
                }
            }
        }
    }

    /// The three sections and the width limit left for the tab list: when the
    /// right section comes in segments, the segments yield to the left section,
    /// and a left section that is too wide limits the tab list; with
    /// `format_hide_on_overlength` the sections that run into higher-ranked
    /// ones are hidden.
    pub open spec fn sections_spec(self, w: Widgets, st: ZellijState) -> (
        RenderedView,
        RenderedView,
        RenderedView,
        Option<usize>,
    ) {
        let st0 = with_limit(st, None);
        let left0 = w.render_spec(st0, self.left_parts@);
        let center = w.render_spec(st0, self.center_parts@);
        let (left, right, limit) = match self.right_segments {
            Some(segs) => {
                let lw = display_width(left0.output) as nat;
                if lw > st.cols {
                    let limit = sat_sub(st.cols as nat, sat_sub(lw, tabs_width(left0.hits))) as usize;
                    (
                        w.render_spec(with_limit(st, Some(limit)), self.left_parts@),
                        empty_view(),
                        Some(limit),
                    )
                } else {
                    let available = sat_sub(st.cols as nat, lw + display_width(center.output) as nat);
                    (left0, self.fit_segments(w, st0, segs@, 0, empty_view(), available), None)
                }
            },
            None => (left0, w.render_spec(st0, self.right_parts@), None),
        };
        if self.hide_on_overlength {
            let t = trim_spec(
                self.format_precedence@,
                sections_of(left.output, center.output, right.output),
                st.cols as nat,
            );
            (kept(left, t.left), kept(center, t.center), kept(right, t.right), limit)
        } else {
            (left, center, right, limit)
        }
    }

    /// Nothing is configured to be shown.
    pub open spec fn unconfigured(self) -> bool {
        self.left_parts@.len() == 0 && self.center_parts@.len() == 0 && self.right_parts@.len() == 0
            && self.right_segments is None
    }

    /// The spaces between two sections, as drawn.
    pub open spec fn spacer_text(self, n: nat) -> Seq<char> {
        formatted(self.format_space@.style, spaces(n))
    }

    /// The bar: the sections with spaces between them.
    pub open spec fn bar_spec(self, w: Widgets, st: ZellijState) -> Seq<char> {
        if self.unconfigured() {
            no_configuration_message()
        } else {
            let (l, c, r, _) = self.sections_spec(w, st);
            let wl = display_width(l.output) as nat;
            let wc = display_width(c.output) as nat;
            let wr = display_width(r.output) as nat;
            if c.output.len() > 0 {
                l.output + self.spacer_text(left_gap(wl, wc, st.cols as nat)) + c.output
                    + self.spacer_text(right_gap(wr, wc, st.cols as nat)) + r.output
            } else {
                l.output + self.spacer_text(gap(wl, wr, st.cols as nat)) + r.output
            }
        }
    }

    /// The widget a click at column `col` hits, and the column within it.
    pub open spec fn click_spec(self, w: Widgets, st: ZellijState, col: nat) -> Option<(Seq<char>, nat)> {
        let (l, c, r, _) = self.sections_spec(w, st);
        let wl = display_width(l.output) as nat;
        let wc = display_width(c.output) as nat;
        let wr = display_width(r.output) as nat;
        let cols = st.cols as nat;
        let center_offset = wl + display_width(self.spacer_text(left_gap(wl, wc, cols))) as nat;
        let right_offset = if c.output.len() == 0 {
            wl + display_width(self.spacer_text(gap(wl, wr, cols))) as nat
        } else {
            center_offset + wc + display_width(self.spacer_text(right_gap(wr, wc, cols))) as nat
        };
        match section_click(l, 0, col) {
            Some(x) => Some(x),
            None => match section_click(c, center_offset, col) {
                Some(x) => Some(x),
                None => section_click(r, right_offset, col),
            },
        }
    }

    /// What a mouse event on the bar does.
    pub open spec fn mouse_spec(self, w: Widgets, st: ZellijState, mouse: Mouse) -> Option<
        (Option<u32>, Seq<char>, usize),
    > {
        let col = match mouse {
            Mouse::LeftClick(_, col) => Some(col),
            Mouse::RightClick(_, col) => Some(col),
            _ => None,
        };
        match col {
            None => None,
            Some(col) => match self.click_spec(w, st, col as nat) {
                None => None,
                Some((name, local)) => if widget_type_spec(name) == "tabs"@ {
                    match w.tabs {
                        Some(t) => if w.ready(st) {
                            match column_tab(
                                t.rendered_spec(with_limit(st, self.sections_spec(w, st).3)),
                                local,
                                0,
                            ) {
                                Some(tab) => Some((Some(tab), seq![], 0)),
                                None => None,
                            }
                        } else {
                            None
                        },
                        None => None,
                    }
                } else {
                    Some((None, name, local as usize))
                },
            },
        }
    }
}

fn tabs_hits_width(hits: &Vec<Hit>) -> (res: usize)
    ensures
        res as nat == if tabs_width(hits_view(hits@)) > usize::MAX {
            usize::MAX as nat
        } else {
            tabs_width(hits_view(hits@))
        },
{
    let ghost hv = hits_view(hits@);
    let mut total: usize = 0;
    let mut i: usize = 0;
    while i < hits.len()
        invariant
            i <= hits@.len(),
            hv == hits_view(hits@),
            total as nat == if tabs_width(hv.take(i as int)) > usize::MAX {
                usize::MAX as nat
            } else {
                tabs_width(hv.take(i as int))
            },
        decreases hits.len() - i,
    {
        assert(hv.take(i + 1).drop_last() =~= hv.take(i as int));
        assert(hv[i as int] == (hits@[i as int].0@, hits@[i as int].1, hits@[i as int].2));
        let is_tabs = crate::config_map::same_chars(&chars_of(hits[i].0.as_str()), &chars_of("tabs"));
        if is_tabs {
            let len = if hits[i].2 >= hits[i].1 {
                hits[i].2 - hits[i].1
            } else {
                0
            };
            total = total.saturating_add(len);
        }
        i += 1;
    }
    assert(hv.take(hits@.len() as int) =~= hv);
    total
}

impl ModuleConfig {
    fn fit_segments_exec(
        &self,
        widgets: &Widgets,
        state: &ZellijState,
        segs: &Vec<Vec<FormattedPart>>,
        available: usize,
    ) -> (res: RenderedParts)
        requires
            self.right_segments == Some(*segs),
            self.uses_tabs() ==> widgets.ready(*state),
        ensures
            res@ == self.fit_segments(*widgets, *state, segs@, 0, empty_view(), available as nat),
    {
        let mut right = RenderedParts::new();
        let mut k: usize = 0;
        while k < segs.len()
            invariant
                k <= segs@.len(),
                self.right_segments == Some(*segs),
                self.uses_tabs() ==> widgets.ready(*state),
                self.fit_segments(*widgets, *state, segs@, k as int, right@, available as nat)
                    == self.fit_segments(*widgets, *state, segs@, 0, empty_view(), available as nat),
            decreases segs.len() - k,
        {
            assert(self.right_segments->0 == *segs);
            assert(parts_name_tabs(segs@[k as int]@) ==> self.uses_tabs());
            let part = widgets.render_parts(&segs[k], state);
            let stripped = strip_ansi_codes(part.output.as_str());
            if blank(&chars_of(stripped.as_str())) {
                k += 1;
                continue;
            }
            let separator = if right.output.as_str().unicode_len() == 0 {
                RenderedParts::new()
            } else {
                widgets.render_parts(&self.right_separator, state)
            };
            let total = measure_text_width(right.output.as_str()) as u128 + measure_text_width(
                separator.output.as_str(),
            ) as u128 + measure_text_width(part.output.as_str()) as u128;
            if total > available as u128 {
                return right;
            }
            right.append(separator);
            right.append(part);
            k += 1;
        }
        right
    }

    /// The three sections as drawn for `state`; the state's width limit for
    /// the tab list is left as the sections needed it.
    pub fn render_sections(&self, state: &mut ZellijState, widgets: &Widgets) -> (res: (
        RenderedParts,
        RenderedParts,
        RenderedParts,
    ))
        requires
            self.uses_tabs() ==> widgets.ready(*old(state)),
            self.hide_on_overlength ==> self.format_precedence@.len() >= 3,
        ensures
            ({
                let (l, c, r, limit) = self.sections_spec(*widgets, *old(state));
                &&& res.0@ == l
                &&& res.1@ == c
                &&& res.2@ == r
                &&& *final(state) == with_limit(*old(state), limit)
            }),
    {
        let ghost st = *state;
        state.tab_width_limit = None;
        assert(*state == with_limit(st, None));
        let mut left = widgets.render_parts(&self.left_parts, state);
        let center = widgets.render_parts(&self.center_parts, state);
        let mut right = RenderedParts::new();
        match &self.right_segments {
            Some(segs) => {
                let left_width = measure_text_width(left.output.as_str());
                if left_width > state.cols {
                    let tabs_width = tabs_hits_width(&left.hits);
                    let rest = left_width.saturating_sub(tabs_width);
                    state.tab_width_limit = Some(state.cols.saturating_sub(rest));
                    left = widgets.render_parts(&self.left_parts, state);
                } else {
                    let used = left_width as u128 + measure_text_width(center.output.as_str()) as u128;
                    let available = if (state.cols as u128) >= used {
                        (state.cols as u128 - used) as usize
                    } else {
                        0
                    };
                    right = self.fit_segments_exec(widgets, state, segs, available);
                }
            },
            None => {
                right = widgets.render_parts(&self.right_parts, state);
            },
        }
        let mut center = center;
        if self.hide_on_overlength {
            let (l, c, r) = self.trim_output(
                left.output.as_str(),
                center.output.as_str(),
                right.output.as_str(),
                state.cols,
            );
            if l.as_str().unicode_len() == 0 {
                left = RenderedParts::new();
            }
            if c.as_str().unicode_len() == 0 {
                center = RenderedParts::new();
            }
            if r.as_str().unicode_len() == 0 {
                right = RenderedParts::new();
            }
        }
        (left, center, right)
    }

    /// The sections can be drawn for `state`: the tab list can be, and
    /// trimming has three sections to rank.
    pub open spec fn drawable(self, w: Widgets, st: ZellijState) -> bool {
        &&& self.uses_tabs() ==> w.ready(st)
        &&& self.hide_on_overlength ==> self.format_precedence@.len() >= 3
    }

    /// Some section, segment or separator names the tab list.
    pub open spec fn uses_tabs(self) -> bool {
        ||| parts_name_tabs(self.left_parts@)
        ||| parts_name_tabs(self.center_parts@)
        ||| parts_name_tabs(self.right_parts@)
        ||| parts_name_tabs(self.right_separator@)
        ||| (self.right_segments matches Some(segs) && exists|k: int|
            0 <= k < segs@.len() && parts_name_tabs(#[trigger] segs@[k]@))
    }

    /// Whether some section, segment or separator names the tab list.
    pub fn tabs_used(&self) -> (res: bool)
        ensures
            res == self.uses_tabs(),
    {
        if name_tabs(&self.left_parts) || name_tabs(&self.center_parts) || name_tabs(
            &self.right_parts,
        ) || name_tabs(&self.right_separator) {
            return true;
        }
        match &self.right_segments {
            None => false,
            Some(segs) => {
                let mut k: usize = 0;
                while k < segs.len()
                    invariant
                        k <= segs@.len(),
                        self.right_segments == Some(*segs),
                        forall|j: int| 0 <= j < k ==> !parts_name_tabs(#[trigger] segs@[j]@),
                    decreases segs.len() - k,
                {
                    if name_tabs(&segs[k]) {
                        assert(self.right_segments->0 == *segs);
                        assert(parts_name_tabs(segs@[k as int]@));
                        return true;
                    }
                    k += 1;
                }
                false
            },
        }
    }

    /// Whether the sections can be drawn for `state`.
    pub fn can_draw(&self, widgets: &Widgets, state: &ZellijState) -> (res: bool)
        ensures
            res == self.drawable(*widgets, *state),
    {
        (!self.tabs_used() || widgets.is_ready(state)) && (!self.hide_on_overlength
            || self.format_precedence.len() >= 3)
    }

    /// The bar for `state`: the sections with spaces between them, or a hint
    /// when nothing is configured.
    pub fn render_bar(&self, state: ZellijState, widgets: &Widgets) -> (res: String)
        requires
            !self.unconfigured() ==> self.drawable(*widgets, state),
        ensures
            res@ == self.bar_spec(*widgets, state),
    {
        let mut state = state;
        self.render_bar_on(&mut state, widgets)
    }

    /// The bar for `*state`, which is left as it was.
    pub fn render_bar_on(&self, state: &mut ZellijState, widgets: &Widgets) -> (res: String)
        requires
            !self.unconfigured() ==> self.drawable(*widgets, *old(state)),
        ensures
            res@ == self.bar_spec(*widgets, *old(state)),
            *final(state) == *old(state),
    {
        if self.left_parts.len() == 0 && self.center_parts.len() == 0 && self.right_parts.len() == 0
            && self.right_segments.is_none() {
            return string_of(
                &chars_of(
                    "No configuration found. See https://github.com/dj95/zjstatus/wiki/3-%E2%80%90-Configuration for more info",
                ),
            );
        }
        let ghost st = *state;
        let saved = state.tab_width_limit;
        let cols = state.cols;
        let (left, center, right) = self.render_sections(state, widgets);
        state.tab_width_limit = saved;
        assert(*state == st);
        let output_left = left.output;
        let output_center = center.output;
        let output_right = right.output;
        let mut out = string_of(&chars_of(output_left.as_str()));
        if output_center.as_str().unicode_len() > 0 {
            let s1 = self.get_spacer_left(output_left.as_str(), output_center.as_str(), cols);
            let s2 = self.get_spacer_right(output_right.as_str(), output_center.as_str(), cols);
            out.append(s1.as_str());
            out.append(output_center.as_str());
            out.append(s2.as_str());
            out.append(output_right.as_str());
        } else {
            let s = self.get_spacer(output_left.as_str(), output_right.as_str(), cols);
            out.append(s.as_str());
            out.append(output_right.as_str());
        }
        out
    }

    /// What a mouse event on the bar drawn for `state` does.
    pub fn handle_mouse_action(&self, state: ZellijState, mouse: Mouse, widgets: &Widgets) -> (res:
        ClickAction)
        requires
            (mouse is LeftClick || mouse is RightClick) ==> self.drawable(*widgets, state),
        ensures
            action_view(res) == self.mouse_spec(*widgets, state, mouse),
    {
        let mut state = state;
        self.handle_mouse_action_on(&mut state, mouse, widgets)
    }

    /// What a mouse event on the bar drawn for `*state` does; the state is
    /// left as it was.
    pub fn handle_mouse_action_on(&self, state: &mut ZellijState, mouse: Mouse, widgets: &Widgets) -> (res:
        ClickAction)
        requires
            (mouse is LeftClick || mouse is RightClick) ==> self.drawable(*widgets, *old(state)),
        ensures
            action_view(res) == self.mouse_spec(*widgets, *old(state), mouse),
            *final(state) == *old(state),
    {
        let col = match mouse {
            Mouse::LeftClick(_, col) | Mouse::RightClick(_, col) => col,
            _ => {
                return ClickAction::Nothing;
            },
        };
        let ghost st = *state;
        let saved = state.tab_width_limit;
        let cols = state.cols;
        let (left, center, right) = self.render_sections(state, widgets);
        let wl = measure_text_width(left.output.as_str()) as u128;
        let spacer_left = self.get_spacer_left(left.output.as_str(), center.output.as_str(), cols);
        let center_offset = wl + measure_text_width(spacer_left.as_str()) as u128;
        let right_offset = if center.output.as_str().unicode_len() == 0 {
            let sp = self.get_spacer(left.output.as_str(), right.output.as_str(), cols);
            wl + measure_text_width(sp.as_str()) as u128
        } else {
            let sp = self.get_spacer_right(right.output.as_str(), center.output.as_str(), cols);
            center_offset + measure_text_width(center.output.as_str()) as u128 + measure_text_width(
                sp.as_str(),
            ) as u128
        };
        let hit = match find_click(&left, 0, col) {
            Some(x) => Some(x),
            None => match find_click(&center, center_offset, col) {
                Some(x) => Some(x),
                None => find_click(&right, right_offset, col),
            },
        };
        let res = match hit {
            None => ClickAction::Nothing,
            Some((name, local)) => {
                let kind = widget_type(name.as_str());
                if crate::config_map::same_chars(&chars_of(kind.as_str()), &chars_of("tabs")) {
                    match &widgets.tabs {
                        Some(t) => if widgets.is_ready(state) {
                            match t.process_click(name.as_str(), state, local) {
                                Some(tab) => ClickAction::SwitchTab(tab),
                                None => ClickAction::Nothing,
                            }
                        } else {
                            ClickAction::Nothing
                        },
                        None => ClickAction::Nothing,
                    }
                } else {
                    ClickAction::Widget(name, local)
                }
            },
        };
        state.tab_width_limit = saved;
        assert(*state == st);
        res
    }
}

/// The widget hit by a click at `col` of a section drawn from `offset` on.
fn find_click(v: &RenderedParts, offset: u128, col: usize) -> (res: Option<(String, usize)>)
    ensures
        match section_click(v@, offset as nat, col as nat) {
            Some((name, local)) => res matches Some(r) && r.0@ == name && r.1 as nat == local,
            None => res is None,
        },
{
    if (col as u128) < offset {
        return None;
    }
    let local = (col as u128 - offset) as usize;
    let ghost hv = hits_view(v.hits@);
    let mut i: usize = 0;
    assert(hv.skip(0) =~= hv);
    while i < v.hits.len()
        invariant
            i <= v.hits@.len(),
            hv == hits_view(v.hits@),
            col as nat >= offset as nat,
            local as nat == col as nat - offset as nat,
            hit_at(hv, local as nat) == hit_at(hv.skip(i as int), local as nat),
        decreases v.hits.len() - i,
    {
        assert(hv[i as int] == (v.hits@[i as int].0@, v.hits@[i as int].1, v.hits@[i as int].2));
        assert(hv.skip(i as int)[0] == hv[i as int]);
        if v.hits[i].1 <= local && local < v.hits[i].2 {
            assert(hit_at(hv.skip(i as int), local as nat) == Some(hv[i as int]));
            return Some((v.hits[i].0.clone(), local - v.hits[i].1));
        }
        assert(hv.skip(i as int).skip(1) =~= hv.skip(i + 1));
        i += 1;
    }
    None
}

/// The sections are laid out from no width limit, whatever limit the state
/// holds.
#[verifier::spinoff_prover]
proof fn lemma_sections_ignore_limit(mc: ModuleConfig, w: Widgets, st: ZellijState, limit: Option<usize>)
    ensures
        mc.sections_spec(w, with_limit(st, limit)) == mc.sections_spec(w, st),
{
    let st2 = with_limit(st, limit);
    assert(with_limit(st2, None) == with_limit(st, None));
    assert forall|x: Option<usize>| with_limit(st2, x) == with_limit(st, x) by {}
}

/// The bar does not depend on a width limit that an earlier draw left in
/// the state: the sections are laid out from no limit each time, so drawing
/// after a narrower draw gives the same bar, and clicks land alike.
#[verifier::spinoff_prover]
pub proof fn lemma_bar_ignores_earlier_limit(
    mc: ModuleConfig,
    w: Widgets,
    st: ZellijState,
    limit: Option<usize>,
    mouse: Mouse,
)
    ensures
        mc.bar_spec(w, with_limit(st, limit)) == mc.bar_spec(w, st),
        mc.mouse_spec(w, with_limit(st, limit), mouse) == mc.mouse_spec(w, st, mouse),
{
    let st2 = with_limit(st, limit);
    lemma_sections_ignore_limit(mc, w, st, limit);
    let sec = mc.sections_spec(w, st);
    assert(with_limit(st2, sec.3) == with_limit(st, sec.3));
    assert(st2.cols == st.cols);
    assert(w.ready(st2) == w.ready(st));
}

// ---------------------------------------------------------------------------
// Laws of the layout
// ---------------------------------------------------------------------------

impl ModuleConfig {
    /// The separator drawn before a segment that follows `shown`: none at the
    /// start of the section.
    pub open spec fn separator_after(self, w: Widgets, st: ZellijState, shown: RenderedView) -> RenderedView {
        if shown.output.len() == 0 {
            empty_view()
        } else {
            w.render_spec(st, self.right_separator@)
        }
    }

    /// Segment `k` draws nothing but blanks.
    pub open spec fn segment_blank(self, w: Widgets, st: ZellijState, segs: Seq<Vec<FormattedPart>>, k: int) -> bool {
        is_blank(ansi_stripped(w.render_spec(st, segs[k]@).output))
    }

    /// The non-blank segments among the first `m`, in their configured order,
    /// drawn one after the other with the separator between them.
    pub open spec fn joined_segments(
        self,
        w: Widgets,
        st: ZellijState,
        segs: Seq<Vec<FormattedPart>>,
        m: int,
    ) -> RenderedView
        decreases m,
    {
        if m <= 0 {
            empty_view()
        } else {
            let shown = self.joined_segments(w, st, segs, m - 1);
            if self.segment_blank(w, st, segs, m - 1) {
                shown
            } else {
                appended(
                    appended(shown, self.separator_after(w, st, shown)),
                    w.render_spec(st, segs[m - 1]@),
                )
            }
        }
    }

    /// Segment `k` fits after the segments before it: the columns of what
    /// they draw, of the separator and of the segment add up to no more than
    /// `available`.
    pub open spec fn segment_fits(
        self,
        w: Widgets,
        st: ZellijState,
        segs: Seq<Vec<FormattedPart>>,
        k: int,
        available: nat,
    ) -> bool {
        let shown = self.joined_segments(w, st, segs, k);
        display_width(shown.output) + display_width(self.separator_after(w, st, shown).output)
            + display_width(w.render_spec(st, segs[k]@).output) <= available
    }
}

proof fn lemma_fit_from(
    mc: ModuleConfig,
    w: Widgets,
    st: ZellijState,
    segs: Seq<Vec<FormattedPart>>,
    k: int,
    available: nat,
) -> (m: int)
    requires
        0 <= k <= segs.len(),
        forall|j: int|
            0 <= j < k && !mc.segment_blank(w, st, segs, j) ==> #[trigger] mc.segment_fits(
                w,
                st,
                segs,
                j,
                available,
            ),
    ensures
        k <= m <= segs.len(),
        mc.fit_segments(w, st, segs, k, mc.joined_segments(w, st, segs, k), available)
            == mc.joined_segments(w, st, segs, m),
        forall|j: int|
            0 <= j < m && !mc.segment_blank(w, st, segs, j) ==> #[trigger] mc.segment_fits(
                w,
                st,
                segs,
                j,
                available,
            ),
        m < segs.len() ==> !mc.segment_blank(w, st, segs, m) && !mc.segment_fits(
            w,
            st,
            segs,
            m,
            available,
        ),
    decreases segs.len() - k,
{
    if k == segs.len() {
        k
    } else {
        let shown = mc.joined_segments(w, st, segs, k);
        let part = w.render_spec(st, segs[k]@);
        let sep = mc.separator_after(w, st, shown);
        if mc.segment_blank(w, st, segs, k) {
            assert(mc.joined_segments(w, st, segs, k + 1) == shown);
            lemma_fit_from(mc, w, st, segs, k + 1, available)
        } else if !mc.segment_fits(w, st, segs, k, available) {
            k
        } else {
            assert(mc.joined_segments(w, st, segs, k + 1) == appended(appended(shown, sep), part));
            lemma_fit_from(mc, w, st, segs, k + 1, available)
        }
    }
}

/// The right section drawn from segments is a prefix of the non-blank
/// segments in their configured order: each segment shown fitted after those
/// before it, and the first non-blank segment that does not fit ends the
/// section, so no later segment is drawn.
pub proof fn lemma_segments_prefix(
    mc: ModuleConfig,
    w: Widgets,
    st: ZellijState,
    segs: Seq<Vec<FormattedPart>>,
    available: nat,
)
    ensures
        exists|m: int|
            0 <= m <= segs.len() && {
                &&& mc.fit_segments(w, st, segs, 0, empty_view(), available)
                    == #[trigger] mc.joined_segments(w, st, segs, m)
                &&& forall|j: int|
                    0 <= j < m && !mc.segment_blank(w, st, segs, j) ==> #[trigger] mc.segment_fits(
                        w,
                        st,
                        segs,
                        j,
                        available,
                    )
                &&& m < segs.len() ==> !mc.segment_blank(w, st, segs, m) && !mc.segment_fits(
                    w,
                    st,
                    segs,
                    m,
                    available,
                )
            },
{
    assert(mc.joined_segments(w, st, segs, 0) == empty_view());
    let m = lemma_fit_from(mc, w, st, segs, 0, available);
    assert(mc.fit_segments(w, st, segs, 0, empty_view(), available) == mc.joined_segments(w, st, segs, m));
}

/// When the right section comes in segments and the left section, drawn
/// without a limit, is wider than the bar, the right section is dropped and
/// the tab list is limited to `cols` minus the columns the left section
/// takes outside the tab list (no column when that rest alone fills the bar;
/// the whole bar when the tab list is all of it). The left section is drawn
/// under that limit, and the tab list fits into it, but for a single tab
/// that had to be cut down to it.
pub proof fn lemma_overflow_limits_tabs(mc: ModuleConfig, w: Widgets, st: ZellijState)
    requires
        mc.right_segments is Some,
        display_width(w.render_spec(with_limit(st, None), mc.left_parts@).output) > st.cols,
    ensures
        ({
            let left0 = w.render_spec(with_limit(st, None), mc.left_parts@);
            let rest = display_width(left0.output) - tabs_width(left0.hits);
            let (l, c, r, limit) = mc.sections_spec(w, st);
            let limited = w.render_spec(with_limit(st, limit), mc.left_parts@);
            &&& limit is Some
            &&& 0 <= rest <= st.cols ==> limit->0 + rest == st.cols
            &&& rest > st.cols ==> limit->0 == 0
            &&& rest < 0 ==> limit->0 == st.cols
            &&& r == empty_view()
            &&& l == limited || l == empty_view()
            &&& !mc.hide_on_overlength ==> l == limited
            &&& w.tabs matches Some(t) ==> {
                let shown = t.rendered_spec(with_limit(st, limit));
                ||| widths(shown) <= limit->0
                ||| shown.len() == 1 && exists|x: Seq<char>|
                    shown[0].1 == truncated(x, limit->0, "\u{2026}"@)
            }
        }),
{
    let limit = mc.sections_spec(w, st).3;
    if let Some(t) = w.tabs {
        lemma_tabs_fit_limit(t, with_limit(st, limit), limit->0);
    }
}

/// Whether the hit `h` covers column `c` of its section.
pub open spec fn covers(h: HitView, c: nat) -> bool {
    h.1 <= c && c < h.2
}

proof fn lemma_hit_at(hits: Seq<HitView>, c: nat) -> (i: int)
    ensures
        match hit_at(hits, c) {
            Some(h) => 0 <= i < hits.len() && hits[i] == h && covers(h, c) && forall|j: int|
                0 <= j < i ==> !covers(#[trigger] hits[j], c),
            None => forall|j: int| 0 <= j < hits.len() ==> !covers(#[trigger] hits[j], c),
        },
    decreases hits.len(),
{
    if hits.len() == 0 {
        0
    } else if covers(hits[0], c) {
        0
    } else {
        let rest = hits.skip(1);
        let k = lemma_hit_at(rest, c);
        assert forall|j: int| 1 <= j < hits.len() implies hits[j] == rest[j - 1] by {}
        assert(hit_at(hits, c) == hit_at(rest, c));
        k + 1
    }
}

/// A click at column `col` on a section drawn from column `offset` on lands
/// on the first widget whose columns `[s, e)` in the section cover
/// `col - offset`, and reaches that widget at its column `col - offset - s`;
/// a click before the section, or on no widget, lands nowhere.
pub proof fn lemma_click_lands_in_widget(v: RenderedView, offset: nat, col: nat)
    ensures
        match section_click(v, offset, col) {
            Some((name, local)) => exists|i: int|
                0 <= i < v.hits.len() && {
                    let h = #[trigger] v.hits[i];
                    &&& h.0 == name
                    &&& offset + h.1 <= col < offset + h.2
                    &&& offset + h.1 + local == col
                    &&& forall|j: int| 0 <= j < i ==> !covers(#[trigger] v.hits[j], (col - offset) as nat)
                },
            None => col < offset || forall|j: int|
                0 <= j < v.hits.len() ==> !covers(#[trigger] v.hits[j], (col - offset) as nat),
        },
{
    if col >= offset {
        let c = (col - offset) as nat;
        let i = lemma_hit_at(v.hits, c);
        if let Some(h) = hit_at(v.hits, c) {
            assert(v.hits[i] == h);
        }
    }
}

/// A left or right click that lands on the tab list at column `local` of it
/// selects the tab whose text spans that column, in the tab list as the bar
/// draws it (under the width limit the layout set).
pub proof fn lemma_click_selects_tab(
    mc: ModuleConfig,
    w: Widgets,
    st: ZellijState,
    mouse: Mouse,
    name: Seq<char>,
    local: nat,
    i: int,
)
    requires
        mouse matches Mouse::LeftClick(_, col) ==> mc.click_spec(w, st, col as nat) == Some(
            (name, local),
        ),
        mouse matches Mouse::RightClick(_, col) ==> mc.click_spec(w, st, col as nat) == Some(
            (name, local),
        ),
        mouse is LeftClick || mouse is RightClick,
        widget_type_spec(name) == "tabs"@,
        w.tabs is Some,
        w.ready(st),
        ({
            let shown = w.tabs->0.rendered_spec(with_limit(st, mc.sections_spec(w, st).3));
            0 <= i < shown.len() && widths(shown.take(i)) <= local < widths(shown.take(i + 1))
        }),
    ensures
        mc.mouse_spec(w, st, mouse) == Some(
            (
                Some(w.tabs->0.rendered_spec(with_limit(st, mc.sections_spec(w, st).3))[i].0),
                Seq::<char>::empty(),
                0usize,
            ),
        ),
{
    let t = w.tabs->0;
    lemma_click_geometry(t, with_limit(st, mc.sections_spec(w, st).3), i, local);
}

/// Trimming keeps the top-ranked section, hides a section only by emptying
/// it, and leaves no two shown sections running into each other along the
/// precedence order.
pub proof fn lemma_trim_sound(prec: Seq<Part>, t: Sections, cols: nat)
    requires
        prec.len() >= 3,
        prec[0] != prec[1] && prec[1] != prec[2] && prec[0] != prec[2],
    ensures
        ({
            let r = trim_spec(prec, t, cols);
            &&& section(r, prec[0]) == section(t, prec[0])
            &&& forall|p: Part| section(r, p) == section(t, p) || section(r, p).len() == 0
            &&& section(r, prec[1]).len() > 0 ==> !overlaps(
                prec[1],
                prec[0],
                display_width(section(r, prec[1])) as nat,
                display_width(section(r, prec[0])) as nat,
                cols,
            )
            &&& section(r, prec[2]).len() > 0 ==> !overlaps(
                prec[2],
                prec[0],
                display_width(section(r, prec[2])) as nat,
                display_width(section(r, prec[0])) as nat,
                cols,
            )
            &&& section(r, prec[2]).len() > 0 && section(r, prec[1]).len() > 0 ==> !overlaps(
                prec[2],
                prec[1],
                display_width(section(r, prec[2])) as nat,
                display_width(section(r, prec[1])) as nat,
                cols,
            )
        }),
{
    let t1 = yield_step(t, prec[2], prec[1], cols);
    let t2 = yield_step(t1, prec[1], prec[0], cols);
    let t3 = yield_step(t2, prec[2], prec[0], cols);
    assert(forall|p: Part, q: Part| p != q ==> section(cleared(t, p), q) == section(t, q));
    assert(forall|p: Part, q: Part| p != q ==> section(cleared(t1, p), q) == section(t1, q));
    assert(forall|p: Part, q: Part| p != q ==> section(cleared(t2, p), q) == section(t2, q));
    assert(forall|p: Part| section(cleared(t, p), p).len() == 0);
    assert(forall|p: Part| section(cleared(t1, p), p).len() == 0);
    assert(forall|p: Part| section(cleared(t2, p), p).len() == 0);
}

} // verus!
