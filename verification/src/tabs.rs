//! The tab list: which tabs are shown, in which format, and which tab a click
//! on a column selects.
use vstd::prelude::*;

use crate::config_map::{lookup, opt_view, Config};
use crate::state::{
    facts, TabFacts, first_active, lemma_first_active, panes_for, panes_of, InputMode, ModeInfo, PaneInfo,
    PaneManifest, TabInfo, ZellijState,
};
use crate::style::{copy_parts, formatted, part_spec, parts_spec, parts_view, FormattedPart, PartView};
use crate::terminal::{display_width, measure_text_width, truncate_str, truncated};
use crate::text::{
    chars_of, contains, contains_seq, decimal, decimal_chars, lemma_replace_absent, parse_usize,
    parse_usize_spec, replace, replace_seq, string_of,
};

verus! {

/// The tab list widget and its formats.
pub struct TabsWidget {
    pub active_tab_format: Vec<FormattedPart>,
    pub active_tab_fullscreen_format: Vec<FormattedPart>,
    pub active_tab_sync_format: Vec<FormattedPart>,
    pub normal_tab_format: Vec<FormattedPart>,
    pub normal_tab_fullscreen_format: Vec<FormattedPart>,
    pub normal_tab_sync_format: Vec<FormattedPart>,
    pub normal_tab_bell_format: Option<Vec<FormattedPart>>,
    pub normal_tab_flashing_bell_format: Option<Vec<FormattedPart>>,
    pub rename_tab_format: Vec<FormattedPart>,
    pub separator: Option<FormattedPart>,
    pub fullscreen_indicator: Option<String>,
    pub floating_indicator: Option<String>,
    pub sync_indicator: Option<String>,
    pub bell_indicator: Option<String>,
    pub flashing_bell_indicator: Option<String>,
    pub tab_display_count: Option<usize>,
    pub tab_truncate_start_format: Vec<FormattedPart>,
    pub tab_truncate_end_format: Vec<FormattedPart>,
    pub tab_zero_based_index: bool,
}

/// The parts configured under `key`, or `default`.
pub open spec fn parts_or(
    cfg: Map<Seq<char>, Seq<char>>,
    key: Seq<char>,
    default: Seq<PartView>,
) -> Seq<PartView> {
    if cfg.contains_key(key) {
        parts_spec(cfg[key], cfg)
    } else {
        default
    }
}

/// The parts configured under `key`, if any.
pub open spec fn opt_parts(cfg: Map<Seq<char>, Seq<char>>, key: Seq<char>) -> Option<Seq<PartView>> {
    if cfg.contains_key(key) {
        Some(parts_spec(cfg[key], cfg))
    } else {
        None
    }
}

pub open spec fn opt_parts_view(o: Option<Vec<FormattedPart>>) -> Option<Seq<PartView>> {
    match o {
        Some(v) => Some(parts_view(v@)),
        None => None,
    }
}

pub open spec fn opt_part_view(o: Option<FormattedPart>) -> Option<PartView> {
    match o {
        Some(p) => Some(p@),
        None => None,
    }
}

fn parts_for_key(config: &Config, key: &str, default: &Vec<FormattedPart>) -> (res: Vec<
    FormattedPart,
>)
    ensures
        parts_view(res@) == parts_or(config@, key@, parts_view(default@)),
{
    match config.get(key) {
        Some(form) => FormattedPart::multiple_from_format_string(form.as_str(), config),
        None => copy_parts(default),
    }
}

fn optional_parts_for_key(config: &Config, key: &str) -> (res: Option<Vec<FormattedPart>>)
    ensures
        opt_parts_view(res) == opt_parts(config@, key@),
{
    match config.get(key) {
        Some(form) => Some(FormattedPart::multiple_from_format_string(form.as_str(), config)),
        None => None,
    }
}

// ---------------------------------------------------------------------------
// What a tab looks like
// ---------------------------------------------------------------------------

/// The name shown for a tab: a prompt while an unnamed tab is being renamed.
pub open spec fn tab_name_shown(name: Seq<char>, mode: ModeInfo) -> Seq<char> {
    if mode.mode == InputMode::RenameTab && name.len() == 0 {
        "Enter name..."@
    } else {
        name
    }
}

/// The number of floating panes.
pub open spec fn floating_count(ps: Seq<PaneInfo>) -> nat
    decreases ps.len(),
{
    if ps.len() == 0 {
        0
    } else {
        floating_count(ps.drop_last()) + (if ps.last().is_floating {
            1nat
        } else {
            0nat
        })
    }
}

/// The title of the first focused pane, or nothing.
pub open spec fn focused_title(ps: Seq<PaneInfo>) -> Seq<char>
    decreases ps.len(),
{
    if ps.len() == 0 {
        seq![]
    } else if ps[0].is_focused {
        ps[0].title@
    } else {
        focused_title(ps.skip(1))
    }
}

pub open spec fn any_floating(ps: Seq<PaneInfo>) -> bool {
    exists|i: int| 0 <= i < ps.len() && (#[trigger] ps[i]).is_floating
}

/// `ind` when `on`, nothing otherwise.
pub open spec fn shown_if(on: bool, ind: Seq<char>) -> Seq<char> {
    if on {
        ind
    } else {
        seq![]
    }
}

pub open spec fn unwrap_or_empty(o: Option<String>) -> Seq<char> {
    match o {
        Some(s) => s@,
        None => seq![],
    }
}

impl TabsWidget {
    /// The format a tab is drawn with.
    pub open spec fn selected_format(self, tab: TabFacts, mode: ModeInfo) -> Vec<FormattedPart> {
        if tab.active && mode.mode == InputMode::RenameTab {
            self.rename_tab_format
        } else if !tab.active && tab.is_flashing_bell && self.normal_tab_flashing_bell_format is Some {
            self.normal_tab_flashing_bell_format->0
        } else if !tab.active && tab.is_flashing_bell && self.normal_tab_bell_format is Some {
            self.normal_tab_bell_format->0
        } else if !tab.active && tab.has_bell_notification && self.normal_tab_bell_format is Some {
            self.normal_tab_bell_format->0
        } else if tab.active && tab.is_fullscreen_active {
            self.active_tab_fullscreen_format
        } else if tab.active && tab.is_sync_panes_active {
            self.active_tab_sync_format
        } else if tab.active {
            self.active_tab_format
        } else if tab.is_fullscreen_active {
            self.normal_tab_fullscreen_format
        } else if tab.is_sync_panes_active {
            self.normal_tab_sync_format
        } else {
            self.normal_tab_format
        }
    }

    /// The tab's number as shown: its position, counted from 0 or from 1.
    pub open spec fn index_shown(self, tab: TabFacts) -> Seq<char> {
        decimal(
            if self.tab_zero_based_index {
                tab.position as nat
            } else {
                tab.position as nat + 1
            },
        )
    }

    /// The 1-based index of `tab` can be counted: the content `c`, once the
    /// name is filled in, shows no `{index}`, or the index is 0-based, or the
    /// position is below `usize::MAX`.
    pub open spec fn index_fits(self, c: Seq<char>, tab: TabFacts, name: Seq<char>, mode: ModeInfo) -> bool {
        ||| self.tab_zero_based_index
        ||| tab.position < usize::MAX
        ||| !contains_seq(replace_seq(c, "{name}"@, tab_name_shown(name, mode)), "{index}"@)
    }

    /// Every format chosen for `tab` can count its index.
    pub open spec fn index_fits_all(self, tab: TabFacts, name: Seq<char>, mode: ModeInfo) -> bool {
        forall|k: int|
            0 <= k < self.selected_format(tab, mode)@.len() ==> self.index_fits(
                (#[trigger] self.selected_format(tab, mode)@[k]).content@,
                tab,
                name,
                mode,
            )
    }

    /// A format's content with the indicator placeholders filled in.
    pub open spec fn indicators_spec(self, c: Seq<char>, tab: TabFacts, panes: PaneManifest) -> Seq<
        char,
    > {
        let c1 = match self.fullscreen_indicator {
            Some(ind) => replace_seq(
                c,
                "{fullscreen_indicator}"@,
                shown_if(tab.is_fullscreen_active, ind@),
            ),
            None => c,
        };
        let c2 = match self.sync_indicator {
            Some(ind) => replace_seq(c1, "{sync_indicator}"@, shown_if(tab.is_sync_panes_active, ind@)),
            None => c1,
        };
        let c3 = match self.floating_indicator {
            Some(ind) => replace_seq(
                c2,
                "{floating_indicator}"@,
                shown_if(any_floating(panes_for(panes.panes@, tab.position)), ind@),
            ),
            None => c2,
        };
        if self.bell_indicator is Some || self.flashing_bell_indicator is Some {
            replace_seq(
                c3,
                "{bell_indicator}"@,
                if tab.is_flashing_bell {
                    unwrap_or_empty(self.flashing_bell_indicator)
                } else if tab.has_bell_notification {
                    unwrap_or_empty(self.bell_indicator)
                } else {
                    seq![]
                },
            )
        } else {
            c3
        }
    }

    /// A format's content with every placeholder filled in for `tab`.
    pub open spec fn content_spec(
        self,
        c: Seq<char>,
        tab: TabFacts,
        name: Seq<char>,
        panes: PaneManifest,
        mode: ModeInfo,
    ) -> Seq<char> {
        let ps = panes_for(panes.panes@, tab.position);
        let c1 = replace_seq(c, "{name}"@, tab_name_shown(name, mode));
        let c2 = replace_seq(c1, "{index}"@, self.index_shown(tab));
        let c3 = replace_seq(c2, "{floating_total_count}"@, decimal(floating_count(ps)));
        let c4 = replace_seq(c3, "{focused_pane_title}"@, focused_title(ps));
        self.indicators_spec(c4, tab, panes)
    }

    /// The formats `fmts` drawn for `tab`, one after the other.
    pub open spec fn pieces_spec(
        self,
        fmts: Seq<FormattedPart>,
        tab: TabFacts,
        name: Seq<char>,
        panes: PaneManifest,
        mode: ModeInfo,
    ) -> Seq<char>
        decreases fmts.len(),
    {
        if fmts.len() == 0 {
            seq![]
        } else {
            self.pieces_spec(fmts.drop_last(), tab, name, panes, mode) + formatted(
                fmts.last()@.style,
                self.content_spec(fmts.last().content@, tab, name, panes, mode),
            )
        }
    }

    /// The text of a tab with the given facts, shown under `name`.
    pub open spec fn tab_text(
        self,
        tab: TabFacts,
        name: Seq<char>,
        panes: PaneManifest,
        mode: ModeInfo,
    ) -> Seq<char> {
        self.pieces_spec(self.selected_format(tab, mode)@, tab, name, panes, mode)
    }

    /// The tab list is the one `cfg` configures.
    pub open spec fn configured_by(self, cfg: Map<Seq<char>, Seq<char>>) -> bool {
        &&& parts_view(self.normal_tab_format@) == parts_or(cfg, "tab_normal"@, seq![])
        &&& parts_view(self.normal_tab_fullscreen_format@) == parts_or(cfg, "tab_normal_fullscreen"@, parts_view(self.normal_tab_format@))
        &&& parts_view(self.normal_tab_sync_format@) == parts_or(cfg, "tab_normal_sync"@, parts_view(self.normal_tab_format@))
        &&& opt_parts_view(self.normal_tab_bell_format) == opt_parts(cfg, "tab_normal_bell"@)
        &&& opt_parts_view(self.normal_tab_flashing_bell_format) == opt_parts(cfg, "tab_normal_flashing_bell"@)
        &&& parts_view(self.active_tab_format@) == parts_or(cfg, "tab_active"@, parts_view(self.normal_tab_format@))
        &&& parts_view(self.active_tab_fullscreen_format@) == parts_or(cfg, "tab_active_fullscreen"@, parts_view(self.active_tab_format@))
        &&& parts_view(self.active_tab_sync_format@) == parts_or(cfg, "tab_active_sync"@, parts_view(self.active_tab_format@))
        &&& parts_view(self.rename_tab_format@) == parts_or(cfg, "tab_rename"@, parts_view(self.active_tab_format@))
        &&& self.tab_display_count == (match lookup(cfg, "tab_display_count"@) { Some(c) => parse_usize_spec(c), None => None })
        &&& parts_view(self.tab_truncate_start_format@) == parts_or(cfg, "tab_truncate_start_format"@, seq![])
        &&& parts_view(self.tab_truncate_end_format@) == parts_or(cfg, "tab_truncate_end_format"@, seq![])
        &&& self.tab_zero_based_index == (lookup(cfg, "tab_zero_based_index"@) == Some("true"@))
        &&& opt_part_view(self.separator) == (match lookup(cfg, "tab_separator"@) { Some(s) => Some(part_spec(s, cfg)), None => None })
        &&& opt_view(self.floating_indicator) == lookup(cfg, "tab_floating_indicator"@)
        &&& opt_view(self.sync_indicator) == lookup(cfg, "tab_sync_indicator"@)
        &&& opt_view(self.fullscreen_indicator) == lookup(cfg, "tab_fullscreen_indicator"@)
        &&& opt_view(self.bell_indicator) == lookup(cfg, "tab_bell_indicator"@)
        &&& opt_view(self.flashing_bell_indicator) == (match lookup(cfg, "tab_flashing_bell_indicator"@) { Some(s) => Some(s), None => lookup(cfg, "tab_bell_indicator"@) })
    }

    /// Every tab position can be shown and counted from 1.
    pub open spec fn positions_ok(tabs: Seq<TabInfo>) -> bool {
        forall|i: int| 0 <= i < tabs.len() ==> (#[trigger] tabs[i]).position < u32::MAX
    }
}

/// The tab list configured by `config`.
impl TabsWidget {
    pub fn new(config: &Config) -> (res: Self)
        ensures
            res.configured_by(config@),
    {
        let none: Vec<FormattedPart> = Vec::new();
        assert(parts_view(none@) =~= Seq::<PartView>::empty());
        let normal_tab_format = parts_for_key(config, "tab_normal", &none);
        let normal_tab_fullscreen_format = parts_for_key(
            config,
            "tab_normal_fullscreen",
            &normal_tab_format,
        );
        let normal_tab_sync_format = parts_for_key(config, "tab_normal_sync", &normal_tab_format);
        let normal_tab_bell_format = optional_parts_for_key(config, "tab_normal_bell");
        let normal_tab_flashing_bell_format = optional_parts_for_key(
            config,
            "tab_normal_flashing_bell",
        );
        let active_tab_format = parts_for_key(config, "tab_active", &normal_tab_format);
        let active_tab_fullscreen_format = parts_for_key(
            config,
            "tab_active_fullscreen",
            &active_tab_format,
        );
        let active_tab_sync_format = parts_for_key(config, "tab_active_sync", &active_tab_format);
        let rename_tab_format = parts_for_key(config, "tab_rename", &active_tab_format);
        let tab_display_count = match config.get("tab_display_count") {
            Some(count) => {
                let digits = chars_of(count.as_str());
                parse_usize(&digits)
            },
            None => None,
        };
        let tab_truncate_start_format = parts_for_key(config, "tab_truncate_start_format", &none);
        let tab_truncate_end_format = parts_for_key(config, "tab_truncate_end_format", &none);
        let tab_zero_based_index = config.is_set_to("tab_zero_based_index", "true");
        let separator = match config.get("tab_separator") {
            Some(s) => Some(FormattedPart::from_format_string(s.as_str(), config)),
            None => None,
        };
        let bell_indicator = config.get_owned("tab_bell_indicator");
        let flashing_bell_indicator = match config.get_owned("tab_flashing_bell_indicator") {
            Some(s) => Some(s),
            None => config.get_owned("tab_bell_indicator"),
        };
        TabsWidget {
            normal_tab_format,
            normal_tab_fullscreen_format,
            normal_tab_sync_format,
            normal_tab_bell_format,
            normal_tab_flashing_bell_format,
            active_tab_format,
            active_tab_fullscreen_format,
            active_tab_sync_format,
            rename_tab_format,
            separator,
            floating_indicator: config.get_owned("tab_floating_indicator"),
            sync_indicator: config.get_owned("tab_sync_indicator"),
            fullscreen_indicator: config.get_owned("tab_fullscreen_indicator"),
            bell_indicator,
            flashing_bell_indicator,
            tab_display_count,
            tab_truncate_start_format,
            tab_truncate_end_format,
            tab_zero_based_index,
        }
    }
}

/// Every occurrence of the placeholder `pat` in `content` replaced by `rep`.
fn fill(content: &Vec<char>, pat: &str, rep: &[char]) -> (res: Vec<char>)
    requires
        pat@.len() > 0,
    ensures
        res@ == replace_seq(content@, pat@, rep@),
{
    let p = chars_of(pat);
    replace(content, &p, rep)
}

fn count_floating(ps: &Vec<PaneInfo>) -> (res: usize)
    ensures
        res as nat == floating_count(ps@),
{
    let mut n: usize = 0;
    let mut i: usize = 0;
    while i < ps.len()
        invariant
            i <= ps@.len(),
            n as nat == floating_count(ps@.take(i as int)),
            n <= i,
        decreases ps.len() - i,
    {
        assert(ps@.take(i + 1).drop_last() =~= ps@.take(i as int));
        if ps[i].is_floating {
            n += 1;
        }
        i += 1;
    }
    assert(ps@.take(ps@.len() as int) =~= ps@);
    n
}

fn first_focused_title(ps: &Vec<PaneInfo>) -> (res: Vec<char>)
    ensures
        res@ == focused_title(ps@),
{
    let mut i: usize = 0;
    assert(ps@.skip(0) =~= ps@);
    while i < ps.len()
        invariant
            i <= ps@.len(),
            focused_title(ps@) == focused_title(ps@.skip(i as int)),
        decreases ps.len() - i,
    {
        assert(ps@.skip(i as int)[0] == ps@[i as int]);
        if ps[i].is_focused {
            return chars_of(ps[i].title.as_str());
        }
        assert(ps@.skip(i as int).skip(1) =~= ps@.skip(i + 1));
        i += 1;
    }
    Vec::new()
}

fn has_floating(ps: &Vec<PaneInfo>) -> (res: bool)
    ensures
        res == any_floating(ps@),
{
    let mut i: usize = 0;
    while i < ps.len()
        invariant
            i <= ps@.len(),
            forall|k: int| 0 <= k < i ==> !(#[trigger] ps@[k]).is_floating,
        decreases ps.len() - i,
    {
        if ps[i].is_floating {
            return true;
        }
        i += 1;
    }
    false
}

fn opt_chars(o: &Option<String>) -> (res: Vec<char>)
    ensures
        res@ == unwrap_or_empty(*o),
{
    match o {
        Some(s) => chars_of(s.as_str()),
        None => Vec::new(),
    }
}

fn chars_if(on: bool, s: &String) -> (res: Vec<char>)
    ensures
        res@ == shown_if(on, s@),
{
    if on {
        chars_of(s.as_str())
    } else {
        Vec::new()
    }
}

impl TabsWidget {
    fn select_format(&self, info: &TabInfo, mode: &ModeInfo) -> (res: &Vec<FormattedPart>)
        ensures
            *res == self.selected_format(facts(*info), *mode),
    {
        if info.active && mode.mode == InputMode::RenameTab {
            return &self.rename_tab_format;
        }
        if !info.active && info.is_flashing_bell {
            if let Some(fmt) = &self.normal_tab_flashing_bell_format {
                return fmt;
            }
            if let Some(fmt) = &self.normal_tab_bell_format {
                return fmt;
            }
        }
        if !info.active && info.has_bell_notification {
            if let Some(fmt) = &self.normal_tab_bell_format {
                return fmt;
            }
        }
        if info.active && info.is_fullscreen_active {
            return &self.active_tab_fullscreen_format;
        }
        if info.active && info.is_sync_panes_active {
            return &self.active_tab_sync_format;
        }
        if info.active {
            return &self.active_tab_format;
        }
        if info.is_fullscreen_active {
            return &self.normal_tab_fullscreen_format;
        }
        if info.is_sync_panes_active {
            return &self.normal_tab_sync_format;
        }
        &self.normal_tab_format
    }

    fn replace_indicators(&self, content: Vec<char>, tab: &TabInfo, panes: &PaneManifest) -> (res:
        Vec<char>)
        ensures
            res@ == self.indicators_spec(content@, facts(*tab), *panes),
    {
        proof {
            reveal_strlit("{fullscreen_indicator}");
            reveal_strlit("{sync_indicator}");
            reveal_strlit("{floating_indicator}");
            reveal_strlit("{bell_indicator}");
        }
        let mut content = content;
        if let Some(ind) = &self.fullscreen_indicator {
            let rep = chars_if(tab.is_fullscreen_active, ind);
            content = fill(&content, "{fullscreen_indicator}", &rep);
        }
        if let Some(ind) = &self.sync_indicator {
            let rep = chars_if(tab.is_sync_panes_active, ind);
            content = fill(&content, "{sync_indicator}", &rep);
        }
        if let Some(ind) = &self.floating_indicator {
            let ps = panes_of(panes, tab.position);
            let rep = chars_if(has_floating(&ps), ind);
            content = fill(&content, "{floating_indicator}", &rep);
        }
        if self.bell_indicator.is_some() || self.flashing_bell_indicator.is_some() {
            let rep = if tab.is_flashing_bell {
                opt_chars(&self.flashing_bell_indicator)
            } else if tab.has_bell_notification {
                opt_chars(&self.bell_indicator)
            } else {
                Vec::new()
            };
            content = fill(&content, "{bell_indicator}", &rep);
        }
        content
    }

    fn tab_content(&self, content: &String, tab: &TabInfo, panes: &PaneManifest, mode: &ModeInfo) -> (res:
        Vec<char>)
        requires
            self.index_fits(content@, facts(*tab), tab.name@, *mode),
        ensures
            res@ == self.content_spec(content@, facts(*tab), tab.name@, *panes, *mode),
    {
        proof {
            reveal_strlit("{name}");
            reveal_strlit("{index}");
            reveal_strlit("{floating_total_count}");
            reveal_strlit("{focused_pane_title}");
        }
        let c = chars_of(content.as_str());
        let name = if mode.mode == InputMode::RenameTab && tab.name.as_str().unicode_len() == 0 {
            chars_of("Enter name...")
        } else {
            chars_of(tab.name.as_str())
        };
        let c = fill(&c, "{name}", &name);
        let c = if contains(&c, &chars_of("{index}")) {
            let index = if self.tab_zero_based_index {
                decimal_chars(tab.position)
            } else {
                decimal_chars(tab.position + 1)
            };
            fill(&c, "{index}", &index)
        } else {
            proof {
                lemma_replace_absent(c@, "{index}"@, self.index_shown(facts(*tab)));
            }
            c
        };
        let ps = panes_of(panes, tab.position);
        let count = decimal_chars(count_floating(&ps));
        let c = fill(&c, "{floating_total_count}", &count);
        let title = first_focused_title(&ps);
        let c = fill(&c, "{focused_pane_title}", &title);
        self.replace_indicators(c, tab, panes)
    }

    /// The text of one tab.
    pub fn render_tab(&self, tab: &TabInfo, panes: &PaneManifest, mode: &ModeInfo) -> (res: String)
        requires
            self.index_fits_all(facts(*tab), tab.name@, *mode),
        ensures
            res@ == self.tab_text(facts(*tab), tab.name@, *panes, *mode),
    {
        let formatters = self.select_format(tab, mode);
        let mut output = String::new();
        let mut i: usize = 0;
        while i < formatters.len()
            invariant
                i <= formatters@.len(),
                self.index_fits_all(facts(*tab), tab.name@, *mode),
                *formatters == self.selected_format(facts(*tab), *mode),
                output@ == self.pieces_spec(
                    formatters@.take(i as int),
                    facts(*tab),
                    tab.name@,
                    *panes,
                    *mode,
                ),
            decreases formatters.len() - i,
        {
            let f = &formatters[i];
            let content = self.tab_content(&f.content, tab, panes, mode);
            let content = string_of(&content);
            let piece = f.format_string(content.as_str());
            output.append(piece.as_str());
            assert(formatters@.take(i + 1).drop_last() =~= formatters@.take(i as int));
            i += 1;
        }
        assert(formatters@.take(formatters@.len() as int) =~= formatters@);
        output
    }
}

// ---------------------------------------------------------------------------
// Which tabs are shown
// ---------------------------------------------------------------------------

/// The window `(start, hidden at the end)` of at most `max_count` tabs that
/// keeps the active tab in view.
pub open spec fn tab_window_spec(tabs: Seq<TabInfo>, max_count: Option<usize>) -> (usize, usize) {
    match max_count {
        None => (0, 0),
        Some(m) => if tabs.len() <= m {
            (0, 0)
        } else {
            let a = first_active(tabs, 0)->0;
            if a > tabs.len() - m {
                ((tabs.len() - m) as usize, 0)
            } else {
                let first = if a >= 1 {
                    a - 1
                } else {
                    0
                };
                let last = if first + m < tabs.len() {
                    first + m
                } else {
                    tabs.len() as int
                };
                (first as usize, (tabs.len() - last) as usize)
            }
        },
    }
}

/// A window of `max_count` tabs needs an active tab to centre on.
pub open spec fn window_defined(tabs: Seq<TabInfo>, max_count: Option<usize>) -> bool {
    match max_count {
        Some(m) => tabs.len() > m ==> first_active(tabs, 0) is Some,
        None => true,
    }
}

/// The window always lies within the tabs.
pub proof fn lemma_tab_window_bounds(tabs: Seq<TabInfo>, max_count: Option<usize>)
    requires
        window_defined(tabs, max_count),
    ensures
        tab_window_spec(tabs, max_count).0 + tab_window_spec(tabs, max_count).1 <= tabs.len(),
{
    if let Some(m) = max_count {
        if tabs.len() > m {
            lemma_first_active(tabs, 0);
        }
    }
}

/// A copy of `tabs[from..to]`.
fn copy_tabs(tabs: &Vec<TabInfo>, from: usize, to: usize) -> (res: Vec<TabInfo>)
    requires
        from <= to <= tabs@.len(),
    ensures
        res@ == tabs@.subrange(from as int, to as int),
{
    let mut res: Vec<TabInfo> = Vec::new();
    let mut i = from;
    while i < to
        invariant
            from <= i <= to <= tabs@.len(),
            res@ == tabs@.subrange(from as int, i as int),
        decreases to - i,
    {
        res.push(tabs[i].duplicate());
        i += 1;
        assert(res@ =~= tabs@.subrange(from as int, i as int));
    }
    res
}

/// The index of the first active tab.
fn active_index(tabs: &Vec<TabInfo>) -> (res: Option<usize>)
    ensures
        match first_active(tabs@, 0) {
            Some(a) => res == Some(a as usize),
            None => res is None,
        },
{
    let mut i: usize = 0;
    while i < tabs.len()
        invariant
            i <= tabs@.len(),
            first_active(tabs@, 0) == first_active(tabs@, i as int),
        decreases tabs.len() - i,
    {
        if tabs[i].active {
            return Some(i);
        }
        i += 1;
    }
    None
}

/// The window of at most `max_count` tabs around the active one: the number
/// of tabs hidden before it, the number hidden after it, and its tabs.
pub fn get_tab_window(tabs: &Vec<TabInfo>, max_count: Option<usize>) -> (res: (
    usize,
    usize,
    Vec<TabInfo>,
))
    requires
        window_defined(tabs@, max_count),
    ensures
        (res.0, res.1) == tab_window_spec(tabs@, max_count),
        res.0 + res.1 <= tabs@.len(),
        res.2@ == tabs@.subrange(res.0 as int, tabs@.len() - res.1),
{
    proof {
        lemma_tab_window_bounds(tabs@, max_count);
    }
    let max_count = match max_count {
        Some(count) => count,
        None => {
            return (0, 0, copy_tabs(tabs, 0, tabs.len()));
        },
    };
    if tabs.len() <= max_count {
        return (0, 0, copy_tabs(tabs, 0, tabs.len()));
    }
    let active_index = match active_index(tabs) {
        Some(a) => a,
        None => {
            return (0, 0, Vec::new());
        },
    };
    proof {
        lemma_first_active(tabs@, 0);
    }
    if active_index > tabs.len() - max_count {
        let start = tabs.len() - max_count;
        return (start, 0, copy_tabs(tabs, start, tabs.len()));
    }
    let first_index = if active_index >= 1 {
        active_index - 1
    } else {
        0
    };
    let last_index = if first_index + max_count < tabs.len() {
        first_index + max_count
    } else {
        tabs.len()
    };
    (first_index, tabs.len() - last_index, copy_tabs(tabs, first_index, last_index))
}

/// With room for at least two tabs, the window keeps the active tab in view
/// and holds exactly as many tabs as fit.
pub proof fn lemma_tab_window_keeps_active(tabs: Seq<TabInfo>, m: usize)
    requires
        m >= 2,
        tabs.len() <= usize::MAX,
        first_active(tabs, 0) is Some,
    ensures
        ({
            let (start, hidden_end) = tab_window_spec(tabs, Some(m));
            let a = first_active(tabs, 0)->0;
            &&& start <= a < tabs.len() - hidden_end
            &&& tabs.len() - hidden_end - start == if tabs.len() <= m {
                tabs.len() as int
            } else {
                m as int
            }
        }),
{
    lemma_first_active(tabs, 0);
}

/// Without a limit every tab is in the window.
pub proof fn lemma_tab_window_unlimited(tabs: Seq<TabInfo>)
    ensures
        tab_window_spec(tabs, None) == (0usize, 0usize),
{
}

/// The parts configured under the first of `keys` that `cfg` sets, or
/// `fallback` when it sets none of them.
pub open spec fn first_configured(
    cfg: Map<Seq<char>, Seq<char>>,
    keys: Seq<Seq<char>>,
    fallback: Seq<PartView>,
) -> Seq<PartView>
    decreases keys.len(),
{
    if keys.len() == 0 {
        fallback
    } else if cfg.contains_key(keys[0]) {
        parts_spec(cfg[keys[0]], cfg)
    } else {
        first_configured(cfg, keys.drop_first(), fallback)
    }
}

/// The configuration keys a tab's format is looked up under, most specific
/// first: the tab being renamed, then the bell formats of a tab in the
/// background, then the fullscreen or synchronised format of its kind, then
/// the plain one.
pub open spec fn tab_format_lookup(
    cfg: Map<Seq<char>, Seq<char>>,
    tab: TabFacts,
    mode: ModeInfo,
) -> Seq<PartView> {
    let normal = first_configured(cfg, seq!["tab_normal"@], seq![]);
    if tab.active {
        let active = seq!["tab_active"@, "tab_normal"@];
        if mode.mode == InputMode::RenameTab {
            first_configured(cfg, seq!["tab_rename"@].add(active), seq![])
        } else if tab.is_fullscreen_active {
            first_configured(cfg, seq!["tab_active_fullscreen"@].add(active), seq![])
        } else if tab.is_sync_panes_active {
            first_configured(cfg, seq!["tab_active_sync"@].add(active), seq![])
        } else {
            first_configured(cfg, active, seq![])
        }
    } else {
        let plain = if tab.is_fullscreen_active {
            first_configured(cfg, seq!["tab_normal_fullscreen"@], normal)
        } else if tab.is_sync_panes_active {
            first_configured(cfg, seq!["tab_normal_sync"@], normal)
        } else {
            normal
        };
        if tab.is_flashing_bell {
            first_configured(cfg, seq!["tab_normal_flashing_bell"@, "tab_normal_bell"@], plain)
        } else if tab.has_bell_notification {
            first_configured(cfg, seq!["tab_normal_bell"@], plain)
        } else {
            plain
        }
    }
}

/// A tab is drawn with the format configured for its state: the first key
/// that the configuration sets among those that apply to it, most specific
/// first (for an active tab in fullscreen, `tab_active_fullscreen`, then
/// `tab_active`, then `tab_normal`).
pub proof fn lemma_tab_format_configured(
    w: TabsWidget,
    cfg: Map<Seq<char>, Seq<char>>,
    tab: TabFacts,
    mode: ModeInfo,
)
    requires
        w.configured_by(cfg),
    ensures
        parts_view(w.selected_format(tab, mode)@) == tab_format_lookup(cfg, tab, mode),
{
    reveal_with_fuel(first_configured, 4);
    let active = seq!["tab_active"@, "tab_normal"@];
    assert(seq!["tab_rename"@].add(active) =~= seq!["tab_rename"@, "tab_active"@, "tab_normal"@]);
    assert(seq!["tab_active_fullscreen"@].add(active) =~= seq![
        "tab_active_fullscreen"@,
        "tab_active"@,
        "tab_normal"@,
    ]);
    assert(seq!["tab_active_sync"@].add(active) =~= seq![
        "tab_active_sync"@,
        "tab_active"@,
        "tab_normal"@,
    ]);
    assert(seq!["tab_rename"@, "tab_active"@, "tab_normal"@].drop_first() =~= active);
    assert(seq!["tab_active_fullscreen"@, "tab_active"@, "tab_normal"@].drop_first() =~= active);
    assert(seq!["tab_active_sync"@, "tab_active"@, "tab_normal"@].drop_first() =~= active);
    assert(active.drop_first() =~= seq!["tab_normal"@]);
    assert(seq!["tab_normal"@].drop_first() =~= Seq::<Seq<char>>::empty());
    assert(seq!["tab_normal_fullscreen"@].drop_first() =~= Seq::<Seq<char>>::empty());
    assert(seq!["tab_normal_sync"@].drop_first() =~= Seq::<Seq<char>>::empty());
    assert(seq!["tab_normal_bell"@].drop_first() =~= Seq::<Seq<char>>::empty());
    assert(seq!["tab_normal_flashing_bell"@, "tab_normal_bell"@].drop_first() =~= seq![
        "tab_normal_bell"@,
    ]);
}

// ---------------------------------------------------------------------------
// The rendered tab list
// ---------------------------------------------------------------------------

/// The parts of a truncation marker, with `{count}` filled in.
pub open spec fn indicator_spec(parts: Seq<FormattedPart>, count: nat) -> Seq<char>
    decreases parts.len(),
{
    if parts.len() == 0 {
        seq![]
    } else {
        indicator_spec(parts.drop_last(), count) + formatted(
            parts.last()@.style,
            replace_seq(parts.last().content@, "{count}"@, decimal(count)),
        )
    }
}

/// The number a tab is selected by: its position counted from 1.
pub open spec fn tab_label(t: TabInfo) -> u32 {
    (t.position + 1) as u32
}

/// The views of labelled texts.
pub open spec fn labeled_view(v: Seq<(u32, String)>) -> Seq<(u32, Seq<char>)> {
    v.map_values(|e: (u32, String)| (e.0, e.1@))
}

/// The columns the texts occupy, one after the other.
pub open spec fn widths(v: Seq<(u32, Seq<char>)>) -> nat
    decreases v.len(),
{
    if v.len() == 0 {
        0
    } else {
        widths(v.drop_last()) + display_width(v.last().1) as nat
    }
}

/// The texts, joined.
pub open spec fn joined(v: Seq<(u32, Seq<char>)>) -> Seq<char>
    decreases v.len(),
{
    if v.len() == 0 {
        seq![]
    } else {
        joined(v.drop_last()) + v.last().1
    }
}

/// The label of the text that covers column `col`, when the texts are laid
/// out from column `offset` on.
pub open spec fn column_tab(v: Seq<(u32, Seq<char>)>, col: nat, offset: nat) -> Option<u32>
    decreases v.len(),
{
    if v.len() == 0 {
        None
    } else {
        let end = offset + display_width(v[0].1) as nat;
        if offset <= col && col < end {
            Some(v[0].0)
        } else {
            column_tab(v.skip(1), col, end)
        }
    }
}

pub proof fn lemma_widths_prefix(v: Seq<(u32, Seq<char>)>, i: int)
    requires
        0 <= i <= v.len(),
    ensures
        widths(v.take(i)) <= widths(v),
    decreases v.len() - i,
{
    if i < v.len() {
        lemma_widths_prefix(v, i + 1);
        assert(v.take(i + 1).drop_last() =~= v.take(i));
    } else {
        assert(v.take(i) =~= v);
    }
}

impl TabsWidget {
    /// The separator drawn after each tab but the last of the window.
    pub open spec fn separator_text(self) -> Seq<char> {
        match self.separator {
            Some(sep) => formatted(sep@.style, sep.content@),
            None => seq![],
        }
    }

    /// The text of tab `i` of the state.
    pub open spec fn shown_tab(self, state: ZellijState, i: int) -> Seq<char> {
        let t = state.tabs@[i];
        self.tab_text(facts(t), t.name@, state.panes, state.mode)
    }

    /// The tabs `start..end` with their separators, between the markers for
    /// the tabs hidden on either side.
    pub open spec fn window_spec(self, state: ZellijState, start: int, end: int) -> Seq<
        (u32, Seq<char>),
    > {
        let tabs = state.tabs@;
        let before = if start > 0 {
            seq![
                (
                    tab_label(tabs[start - 1]),
                    indicator_spec(self.tab_truncate_start_format@, start as nat),
                ),
            ]
        } else {
            seq![]
        };
        let shown = Seq::new(
            (end - start) as nat,
            |k: int|
                (
                    tab_label(tabs[start + k]),
                    self.shown_tab(state, start + k) + (if start + k + 1 < end {
                        self.separator_text()
                    } else {
                        seq![]
                    }),
                ),
        );
        let after = if end < tabs.len() {
            seq![
                (
                    tab_label(tabs[end]),
                    indicator_spec(self.tab_truncate_end_format@, (tabs.len() - end) as nat),
                ),
            ]
        } else {
            seq![]
        };
        before + shown + after
    }

    /// The number of tabs the window may hold; at least one while the width
    /// is limited.
    pub open spec fn effective_count(self, state: ZellijState) -> Option<usize> {
        if state.tab_width_limit is Some {
            match self.tab_display_count {
                Some(n) => Some(if n > 1 {
                    n
                } else {
                    1
                }),
                None => None,
            }
        } else {
            self.tab_display_count
        }
    }

    /// The active tab alone, shortened to `limit` columns: its name is cut
    /// first, then the whole text.
    pub open spec fn fallback_text(self, state: ZellijState, active: int, limit: usize) -> Seq<
        char,
    > {
        let tab = state.tabs@[active];
        let text = self.tab_text(facts(tab), tab.name@, state.panes, state.mode);
        if display_width(text) <= limit {
            text
        } else {
            let chrome = display_width(self.tab_text(facts(tab), seq![], state.panes, state.mode));
            let room = if chrome <= limit {
                (limit - chrome) as usize
            } else {
                0usize
            };
            let name = truncated(tab.name@, room, "\u{2026}"@);
            truncated(
                self.tab_text(facts(tab), name, state.panes, state.mode),
                limit,
                "\u{2026}"@,
            )
        }
    }

    /// The window `start..end` narrowed, one tab at a time from the side
    /// farther from the active tab, until it fits the width limit; a single
    /// tab that still does not fit is shortened.
    pub open spec fn fit(self, state: ZellijState, start: int, end: int, active: int) -> Seq<
        (u32, Seq<char>),
    >
        decreases end - start,
    {
        let rendered = self.window_spec(state, start, end);
        match state.tab_width_limit {
            None => rendered,
            Some(limit) => if widths(rendered) <= limit {
                rendered
            } else if end - start > 1 {
                if active - start > end - active - 1 {
                    self.fit(state, start + 1, end, active)
                } else {
                    self.fit(state, start, end - 1, active)
                }
            } else {
                seq![(tab_label(state.tabs@[active]), self.fallback_text(state, active, limit))]
            },
        }
    }

    /// The tab list: labelled texts for the tabs shown and the markers of
    /// those hidden.
    pub open spec fn rendered_spec(self, state: ZellijState) -> Seq<(u32, Seq<char>)> {
        if state.tabs@.len() == 0 || state.tab_width_limit == Some(0usize) {
            seq![]
        } else {
            let (start, hidden_end) = tab_window_spec(state.tabs@, self.effective_count(state));
            let end = state.tabs@.len() - hidden_end;
            let active = match first_active(state.tabs@, 0) {
                Some(a) => a,
                None => start as int,
            };
            self.fit(state, start as int, end, active)
        }
    }

    /// The states the tab list can be drawn for: with no tab, or limited to
    /// no column, nothing is drawn; otherwise every position can be counted
    /// from 1 and the window is defined.
    pub open spec fn state_ok(self, state: ZellijState) -> bool {
        ||| state.tabs@.len() == 0
        ||| state.tab_width_limit == Some(0usize)
        ||| {
            &&& TabsWidget::positions_ok(state.tabs@)
            &&& window_defined(state.tabs@, self.effective_count(state))
        }
    }
}

fn indicator(parts: &Vec<FormattedPart>, count: usize) -> (res: String)
    ensures
        res@ == indicator_spec(parts@, count as nat),
{
    proof {
        reveal_strlit("{count}");
    }
    let number = decimal_chars(count);
    let mut out = String::new();
    let mut i: usize = 0;
    while i < parts.len()
        invariant
            i <= parts@.len(),
            number@ == decimal(count as nat),
            "{count}"@.len() > 0,
            out@ == indicator_spec(parts@.take(i as int), count as nat),
        decreases parts.len() - i,
    {
        let content = chars_of(parts[i].content.as_str());
        let filled = fill(&content, "{count}", &number);
        let filled = string_of(&filled);
        let piece = parts[i].format_string(filled.as_str());
        out.append(piece.as_str());
        assert(parts@.take(i + 1).drop_last() =~= parts@.take(i as int));
        i += 1;
    }
    assert(parts@.take(parts@.len() as int) =~= parts@);
    out
}

fn total_width(v: &Vec<(u32, String)>) -> (res: Option<usize>)
    ensures
        match res {
            Some(w) => w as nat == widths(labeled_view(v@)),
            None => widths(labeled_view(v@)) > usize::MAX,
        },
{
    let ghost lv = labeled_view(v@);
    let mut acc: usize = 0;
    let mut i: usize = 0;
    while i < v.len()
        invariant
            i <= v@.len(),
            lv == labeled_view(v@),
            acc as nat == widths(lv.take(i as int)),
        decreases v.len() - i,
    {
        let w = measure_text_width(v[i].1.as_str());
        assert(lv.take(i + 1).drop_last() =~= lv.take(i as int));
        assert(lv[i as int].1 == v@[i as int].1@);
        match acc.checked_add(w) {
            Some(next) => {
                acc = next;
            },
            None => {
                proof {
                    lemma_widths_prefix(lv, i + 1);
                }
                return None;
            },
        }
        i += 1;
    }
    assert(lv.take(v@.len() as int) =~= lv);
    Some(acc)
}

impl TabsWidget {
    fn render_window(&self, state: &ZellijState, start: usize, end: usize) -> (res: Vec<(u32, String)>)
        requires
            start <= end <= state.tabs@.len(),
            TabsWidget::positions_ok(state.tabs@),
        ensures
            labeled_view(res@) == self.window_spec(*state, start as int, end as int),
    {
        let ghost spec_all = self.window_spec(*state, start as int, end as int);
        let mut rendered: Vec<(u32, String)> = Vec::new();
        if start > 0 {
            let label = state.tabs[start - 1].position as u32 + 1;
            rendered.push((label, indicator(&self.tab_truncate_start_format, start)));
        }
        let ghost before = labeled_view(rendered@);
        let mut index: usize = start;
        while index < end
            invariant
                start <= index <= end <= state.tabs@.len(),
                TabsWidget::positions_ok(state.tabs@),
                labeled_view(rendered@) == before + Seq::new(
                    (index - start) as nat,
                    |k: int|
                        (
                            tab_label(state.tabs@[start + k]),
                            self.shown_tab(*state, start + k) + (if start + k + 1 < end {
                                self.separator_text()
                            } else {
                                seq![]
                            }),
                        ),
                ),
            decreases end - index,
        {
            let tab = &state.tabs[index];
            let mut text = self.render_tab(tab, &state.panes, &state.mode);
            if index + 1 < end {
                if let Some(separator) = &self.separator {
                    let sep = separator.format_string(separator.content.as_str());
                    text.append(sep.as_str());
                }
            }
            let label = tab.position as u32 + 1;
            let ghost prev = labeled_view(rendered@);
            rendered.push((label, text));
            assert(labeled_view(rendered@) =~= prev.push((label, text@)));
            index += 1;
            assert(labeled_view(rendered@) =~= before + Seq::new(
                (index - start) as nat,
                |k: int|
                    (
                        tab_label(state.tabs@[start + k]),
                        self.shown_tab(*state, start + k) + (if start + k + 1 < end {
                            self.separator_text()
                        } else {
                            seq![]
                        }),
                    ),
            ));
        }
        if end < state.tabs.len() {
            let label = state.tabs[end].position as u32 + 1;
            let ghost prev = labeled_view(rendered@);
            let marker = indicator(&self.tab_truncate_end_format, state.tabs.len() - end);
            rendered.push((label, marker));
            assert(labeled_view(rendered@) =~= prev.push((label, marker@)));
        }
        assert(labeled_view(rendered@) =~= spec_all);
        rendered
    }

    fn fallback(&self, state: &ZellijState, active: usize, limit: usize) -> (res: String)
        requires
            active < state.tabs@.len(),
            TabsWidget::positions_ok(state.tabs@),
        ensures
            res@ == self.fallback_text(*state, active as int, limit),
    {
        let tab = &state.tabs[active];
        let mut text = self.render_tab(tab, &state.panes, &state.mode);
        if measure_text_width(text.as_str()) > limit {
            let mut shortened = tab.duplicate();
            shortened.name = String::new();
            assert(facts(shortened) == facts(*tab));
            let chrome = self.render_tab(&shortened, &state.panes, &state.mode);
            let chrome_width = measure_text_width(chrome.as_str());
            let room = if chrome_width <= limit {
                limit - chrome_width
            } else {
                0
            };
            shortened.name = truncate_str(tab.name.as_str(), room, "\u{2026}");
            assert(facts(shortened) == facts(*tab));
            text = self.render_tab(&shortened, &state.panes, &state.mode);
            text = truncate_str(text.as_str(), limit, "\u{2026}");
        }
        text
    }

    /// The labelled texts of the tab list: the tabs shown, fitted to the
    /// width limit, and the markers of the tabs hidden.
    pub fn rendered_tabs(&self, state: &ZellijState) -> (res: Vec<(u32, String)>)
        requires
            self.state_ok(*state),
        ensures
            labeled_view(res@) == self.rendered_spec(*state),
    {
        let limited_to_zero = match state.tab_width_limit {
            Some(l) => l == 0,
            None => false,
        };
        if state.tabs.len() == 0 || limited_to_zero {
            let empty: Vec<(u32, String)> = Vec::new();
            assert(labeled_view(empty@) =~= Seq::<(u32, Seq<char>)>::empty());
            return empty;
        }
        let max_count = if state.tab_width_limit.is_some() {
            match self.tab_display_count {
                Some(n) => Some(
                    if n > 1 {
                        n
                    } else {
                        1
                    },
                ),
                None => None,
            }
        } else {
            self.tab_display_count
        };
        let (start0, hidden_end, _) = get_tab_window(&state.tabs, max_count);
        let mut start = start0;
        let mut end = state.tabs.len() - hidden_end;
        let active = match active_index(&state.tabs) {
            Some(a) => a,
            None => start,
        };
        proof {
            lemma_first_active(state.tabs@, 0);
            if let Some(m) = max_count {
                if m >= 2 && first_active(state.tabs@, 0) is Some {
                    lemma_tab_window_keeps_active(state.tabs@, m);
                }
            }
            if first_active(state.tabs@, 0) is None {
                // without an active tab the window is every tab
                assert(start == 0);
            }
        }
        loop
            invariant
                start <= end <= state.tabs@.len(),
                active < state.tabs@.len(),
                end - start > 1 ==> start <= active < end,
                TabsWidget::positions_ok(state.tabs@),
                self.fit(*state, start as int, end as int, active as int) == self.rendered_spec(
                    *state,
                ),
            decreases end - start,
        {
            let rendered = self.render_window(state, start, end);
            let limit = match state.tab_width_limit {
                None => {
                    return rendered;
                },
                Some(l) => l,
            };
            let fits = match total_width(&rendered) {
                Some(w) => w <= limit,
                None => false,
            };
            if fits {
                return rendered;
            }
            if end - start > 1 {
                if active - start > end - active - 1 {
                    start += 1;
                } else {
                    end -= 1;
                }
                continue;
            }
            let text = self.fallback(state, active, limit);
            let label = state.tabs[active].position as u32 + 1;
            let mut single: Vec<(u32, String)> = Vec::new();
            single.push((label, text));
            assert(labeled_view(single@) =~= seq![(label, text@)]);
            return single;
        }
    }

    /// The whole tab list as one text.
    pub fn process(&self, name: &str, state: &ZellijState) -> (res: String)
        requires
            self.state_ok(*state),
        ensures
            res@ == joined(self.rendered_spec(*state)),
    {
        let rendered = self.rendered_tabs(state);
        let ghost lv = labeled_view(rendered@);
        let mut out = String::new();
        let mut i: usize = 0;
        while i < rendered.len()
            invariant
                i <= rendered@.len(),
                lv == labeled_view(rendered@),
                out@ == joined(lv.take(i as int)),
            decreases rendered.len() - i,
        {
            out.append(rendered[i].1.as_str());
            assert(lv.take(i + 1).drop_last() =~= lv.take(i as int));
            i += 1;
        }
        assert(lv.take(rendered@.len() as int) =~= lv);
        out
    }

    /// The tab drawn at column `col` of the tab list.
    pub fn tab_at_column(&self, state: &ZellijState, col: usize) -> (res: Option<u32>)
        requires
            self.state_ok(*state),
        ensures
            res == column_tab(self.rendered_spec(*state), col as nat, 0),
    {
        let rendered = self.rendered_tabs(state);
        let ghost lv = labeled_view(rendered@);
        let mut offset: usize = 0;
        let mut i: usize = 0;
        assert(lv.skip(0) =~= lv);
        while i < rendered.len()
            invariant
                i <= rendered@.len(),
                lv == labeled_view(rendered@),
                lv == self.rendered_spec(*state),
                offset <= col,
                column_tab(lv, col as nat, 0) == column_tab(lv.skip(i as int), col as nat, offset as nat),
            decreases rendered.len() - i,
        {
            let w = measure_text_width(rendered[i].1.as_str());
            assert(lv[i as int] == (rendered@[i as int].0, rendered@[i as int].1@));
            assert(lv.skip(i as int)[0] == lv[i as int]);
            assert(lv.skip(i as int).skip(1) =~= lv.skip(i + 1));
            match offset.checked_add(w) {
                Some(end) => {
                    if col < end {
                        assert(column_tab(lv.skip(i as int), col as nat, offset as nat) == Some(
                            rendered@[i as int].0,
                        ));
                        return Some(rendered[i].0);
                    }
                    offset = end;
                },
                None => {
                    assert(column_tab(lv.skip(i as int), col as nat, offset as nat) == Some(
                        rendered@[i as int].0,
                    ));
                    return Some(rendered[i].0);
                },
            }
            i += 1;
        }
        assert(lv.skip(i as int).len() == 0);
        None
    }

    /// The tab to switch to after a click at column `pos` of the tab list.
    pub fn process_click(&self, name: &str, state: &ZellijState, pos: usize) -> (res: Option<u32>)
        requires
            self.state_ok(*state),
        ensures
            res == column_tab(self.rendered_spec(*state), pos as nat, 0),
    {
        self.tab_at_column(state, pos)
    }
}

// ---------------------------------------------------------------------------
// Laws of the tab list
// ---------------------------------------------------------------------------

proof fn lemma_fit_width(w: TabsWidget, state: ZellijState, start: int, end: int, active: int, limit: usize)
    requires
        state.tab_width_limit == Some(limit),
    ensures
        widths(w.fit(state, start, end, active)) <= limit || (w.fit(state, start, end, active).len()
            == 1 && exists|x: Seq<char>|
            w.fit(state, start, end, active)[0].1 == truncated(x, limit, "\u{2026}"@)),
    decreases end - start,
{
    let rendered = w.window_spec(state, start, end);
    if widths(rendered) <= limit {
    } else if end - start > 1 {
        if active - start > end - active - 1 {
            lemma_fit_width(w, state, start + 1, end, active, limit);
        } else {
            lemma_fit_width(w, state, start, end - 1, active, limit);
        }
    } else {
        let r = w.fit(state, start, end, active);
        let text = w.fallback_text(state, active, limit);
        assert(r == seq![(tab_label(state.tabs@[active]), text)]);
        assert(r.drop_last() =~= Seq::<(u32, Seq<char>)>::empty());
        let tab = state.tabs@[active];
        let t = w.tab_text(facts(tab), tab.name@, state.panes, state.mode);
        assert(widths(r) == widths(r.drop_last()) + display_width(r.last().1) as nat);
        assert(widths(r) == display_width(text) as nat);
        if display_width(t) <= limit {
            assert(text == t);
        } else {
            let chrome = display_width(w.tab_text(facts(tab), seq![], state.panes, state.mode));
            let room = if chrome <= limit {
                (limit - chrome) as usize
            } else {
                0usize
            };
            let name = truncated(tab.name@, room, "\u{2026}"@);
            let x = w.tab_text(facts(tab), name, state.panes, state.mode);
            assert(r[0].1 == truncated(x, limit, "\u{2026}"@));
        }
    }
}

/// With the tab list limited to `limit` columns, what it draws fits into
/// them, unless it is the single active tab that had to be cut down with
/// `console::truncate_str` to the limit.
pub proof fn lemma_tabs_fit_limit(w: TabsWidget, state: ZellijState, limit: usize)
    requires
        state.tab_width_limit == Some(limit),
    ensures
        widths(w.rendered_spec(state)) <= limit || (w.rendered_spec(state).len() == 1 && exists|
            x: Seq<char>,
        | w.rendered_spec(state)[0].1 == truncated(x, limit, "\u{2026}"@)),
{
    if state.tabs@.len() == 0 || state.tab_width_limit == Some(0usize) {
    } else {
        let (start, hidden_end) = tab_window_spec(state.tabs@, w.effective_count(state));
        let end = state.tabs@.len() - hidden_end;
        let active = match first_active(state.tabs@, 0) {
            Some(a) => a,
            None => start as int,
        };
        lemma_fit_width(w, state, start as int, end, active, limit);
    }
}

proof fn lemma_fit_keeps(w: TabsWidget, state: ZellijState, start: int, end: int, active: int)
    requires
        0 <= start <= active < end <= state.tabs@.len(),
    ensures
        exists|i: int|
            0 <= i < w.fit(state, start, end, active).len() && (#[trigger] w.fit(
                state,
                start,
                end,
                active,
            )[i]).0 == tab_label(state.tabs@[active]),
    decreases end - start,
{
    let rendered = w.window_spec(state, start, end);
    let before_len: int = if start > 0 {
        1
    } else {
        0
    };
    let i = before_len + (active - start);
    assert(rendered.len() >= before_len + (end - start));
    assert(0 <= i < rendered.len());
    assert(rendered[i].0 == tab_label(state.tabs@[active]));
    match state.tab_width_limit {
        None => {
            let f = w.fit(state, start, end, active);
            assert(f == rendered);
            assert(0 <= i < f.len() && f[i].0 == tab_label(state.tabs@[active]));
        },
        Some(limit) => {
            if widths(rendered) <= limit {
                let f = w.fit(state, start, end, active);
                assert(f == rendered);
                assert(0 <= i < f.len() && f[i].0 == tab_label(state.tabs@[active]));
            } else if end - start > 1 {
                if active - start > end - active - 1 {
                    lemma_fit_keeps(w, state, start + 1, end, active);
                    assert(w.fit(state, start, end, active) == w.fit(state, start + 1, end, active));
                } else {
                    lemma_fit_keeps(w, state, start, end - 1, active);
                    assert(w.fit(state, start, end, active) == w.fit(state, start, end - 1, active));
                }
            } else {
                let f = w.fit(state, start, end, active);
                assert(f == seq![(tab_label(state.tabs@[active]), w.fallback_text(state, active, limit))]);
                assert(0 < f.len() && f[0].0 == tab_label(state.tabs@[active]));
            }
        },
    }
}

/// The active tab stays in the tab list whatever the width limit, as long
/// as the configured count leaves room for it beside a neighbour.
pub proof fn lemma_tabs_keep_active(w: TabsWidget, state: ZellijState)
    requires
        first_active(state.tabs@, 0) is Some,
        state.tabs@.len() <= usize::MAX,
        state.tab_width_limit != Some(0usize),
        w.effective_count(state) matches Some(m) ==> (m >= 2 || state.tabs@.len() <= m),
    ensures
        exists|i: int|
            0 <= i < w.rendered_spec(state).len() && (#[trigger] w.rendered_spec(state)[i]).0
                == tab_label(state.tabs@[first_active(state.tabs@, 0)->0]),
{
    let a = first_active(state.tabs@, 0)->0;
    lemma_first_active(state.tabs@, 0);
    let (start, hidden_end) = tab_window_spec(state.tabs@, w.effective_count(state));
    if let Some(m) = w.effective_count(state) {
        if m >= 2 {
            lemma_tab_window_keeps_active(state.tabs@, m);
        }
    }
    let end = state.tabs@.len() - hidden_end;
    assert(w.rendered_spec(state) == w.fit(state, start as int, end, a));
    lemma_fit_keeps(w, state, start as int, end, a);
    let i = choose|i: int|
        0 <= i < w.fit(state, start as int, end, a).len() && (#[trigger] w.fit(
            state,
            start as int,
            end,
            a,
        )[i]).0 == tab_label(state.tabs@[a]);
    assert(w.rendered_spec(state)[i].0 == tab_label(state.tabs@[a]));
}

proof fn lemma_column_tab_shift(v: Seq<(u32, Seq<char>)>, col: nat, offset: nat)
    requires
        col < offset,
    ensures
        column_tab(v, col, offset) is None,
    decreases v.len(),
{
    if v.len() > 0 {
        lemma_column_tab_shift(v.skip(1), col, offset + display_width(v[0].1) as nat);
    }
}

proof fn lemma_column_tab_span(v: Seq<(u32, Seq<char>)>, i: int, col: nat, offset: nat)
    requires
        0 <= i < v.len(),
        offset + widths(v.take(i)) <= col < offset + widths(v.take(i + 1)),
    ensures
        column_tab(v, col, offset) == Some(v[i].0),
    decreases i,
{
    assert(v.take(i + 1).drop_last() =~= v.take(i));
    if i == 0 {
        assert(v.take(0) =~= Seq::<(u32, Seq<char>)>::empty());
    } else {
        let w0 = display_width(v[0].1) as nat;
        lemma_widths_front(v.take(i));
        lemma_widths_front(v.take(i + 1));
        assert(v.take(i).skip(1) =~= v.skip(1).take(i - 1));
        assert(v.take(i + 1).skip(1) =~= v.skip(1).take(i));
        assert(v.take(i)[0] == v[0]);
        lemma_column_tab_span(v.skip(1), i - 1, col, offset + w0);
    }
}

proof fn lemma_column_tab_past(v: Seq<(u32, Seq<char>)>, col: nat, offset: nat)
    requires
        col >= offset + widths(v),
    ensures
        column_tab(v, col, offset) is None,
    decreases v.len(),
{
    if v.len() > 0 {
        lemma_widths_front(v);
        lemma_column_tab_past(v.skip(1), col, offset + display_width(v[0].1) as nat);
    }
}

/// The width of texts is the width of the first plus the width of the rest.
pub proof fn lemma_widths_front(v: Seq<(u32, Seq<char>)>)
    requires
        v.len() > 0,
    ensures
        widths(v) == display_width(v[0].1) as nat + widths(v.skip(1)),
    decreases v.len(),
{
    if v.len() > 1 {
        lemma_widths_front(v.drop_last());
        assert(v.drop_last().skip(1) =~= v.skip(1).drop_last());
        assert(v.drop_last()[0] == v[0]);
    } else {
        assert(v.skip(1) =~= Seq::<(u32, Seq<char>)>::empty());
        assert(v.drop_last() =~= Seq::<(u32, Seq<char>)>::empty());
    }
}

/// A click lands on the tab whose text spans its column, and a click past
/// the tab list lands on no tab.
pub proof fn lemma_click_geometry(w: TabsWidget, state: ZellijState, i: int, col: nat)
    ensures
        0 <= i < w.rendered_spec(state).len() && widths(w.rendered_spec(state).take(i)) <= col
            < widths(w.rendered_spec(state).take(i + 1)) ==> column_tab(w.rendered_spec(state), col, 0)
            == Some(w.rendered_spec(state)[i].0),
        col >= widths(w.rendered_spec(state)) ==> column_tab(w.rendered_spec(state), col, 0) is None,
{
    let r = w.rendered_spec(state);
    if 0 <= i < r.len() && widths(r.take(i)) <= col < widths(r.take(i + 1)) {
        lemma_column_tab_span(r, i, col, 0);
    }
    if col >= widths(r) {
        lemma_column_tab_past(r, col, 0);
    }
}

} // verus!
