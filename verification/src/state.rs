//! What the bar knows of the session: tabs, panes, the input mode, the
//! terminal width and the results that other plugins piped in.
use vstd::prelude::*;

use crate::config_map::Config;

verus! {

/// The input modes of the host.
#[derive(Clone, Copy, Debug, PartialEq, Eq, Structural)]
pub enum InputMode {
    Normal,
    Locked,
    Resize,
    Pane,
    Tab,
    Scroll,
    EnterSearch,
    Search,
    RenameTab,
    RenamePane,
    Session,
    Move,
    Prompt,
    Tmux,
}

/// The current mode.
#[derive(Clone, Debug, PartialEq, Eq)]
pub struct ModeInfo {
    pub mode: InputMode,
    /// The host's other mode information (session name, keybindings,
    /// style and so on) as text, so that two modes can be told apart.
    pub details: String,
}

/// One tab of the session.
#[derive(Clone, Debug, PartialEq, Eq)]
pub struct TabInfo {
    pub tab_id: usize,
    /// The tab's 0-based position.
    pub position: usize,
    pub name: String,
    pub active: bool,
    pub is_fullscreen_active: bool,
    pub is_sync_panes_active: bool,
    pub has_bell_notification: bool,
    pub is_flashing_bell: bool,
    /// The host's other tab information as text, so that two tabs can be
    /// told apart.
    pub details: String,
}

/// One pane of a tab.
#[derive(Clone, Debug, PartialEq, Eq)]
pub struct PaneInfo {
    pub id: u32,
    pub is_plugin: bool,
    pub is_focused: bool,
    pub is_floating: bool,
    pub title: String,
    /// The host's other pane information as text, so that two panes can be
    /// told apart.
    pub details: String,
}

/// The panes of each tab, keyed by tab position.
#[derive(Clone, Debug, PartialEq, Eq)]
pub struct PaneManifest {
    pub panes: Vec<(usize, Vec<PaneInfo>)>,
}

/// The state every widget renders from.
pub struct ZellijState {
    pub cols: usize,
    /// The columns the tab list may use, when the bar is too narrow.
    pub tab_width_limit: Option<usize>,
    pub mode: ModeInfo,
    pub panes: PaneManifest,
    pub tabs: Vec<TabInfo>,
    /// What was piped to the bar for each pipe name.
    pub pipe_results: Config,
    pub cache_mask: u8,
}

/// Everything about a tab but its name.
pub struct TabFacts {
    pub position: usize,
    pub active: bool,
    pub is_fullscreen_active: bool,
    pub is_sync_panes_active: bool,
    pub has_bell_notification: bool,
    pub is_flashing_bell: bool,
}

pub open spec fn facts(t: TabInfo) -> TabFacts {
    TabFacts {
        position: t.position,
        active: t.active,
        is_fullscreen_active: t.is_fullscreen_active,
        is_sync_panes_active: t.is_sync_panes_active,
        has_bell_notification: t.has_bell_notification,
        is_flashing_bell: t.is_flashing_bell,
    }
}

/// The panes listed for tab position `pos` (none when it has no entry).
pub open spec fn panes_for(m: Seq<(usize, Vec<PaneInfo>)>, pos: usize) -> Seq<PaneInfo>
    decreases m.len(),
{
    if m.len() == 0 {
        seq![]
    } else if m[0].0 == pos {
        m[0].1@
    } else {
        panes_for(m.skip(1), pos)
    }
}

/// The index of the first active tab at or after `i`.
pub open spec fn first_active(tabs: Seq<TabInfo>, i: int) -> Option<int>
    decreases tabs.len() - i,
{
    if i < 0 || i >= tabs.len() {
        None
    } else if tabs[i].active {
        Some(i)
    } else {
        first_active(tabs, i + 1)
    }
}

pub proof fn lemma_first_active(tabs: Seq<TabInfo>, i: int)
    requires
        0 <= i,
    ensures
        match first_active(tabs, i) {
            Some(j) => i <= j < tabs.len() && tabs[j].active && forall|k: int|
                i <= k < j ==> !(#[trigger] tabs[k]).active,
            None => forall|k: int| i <= k < tabs.len() ==> !(#[trigger] tabs[k]).active,
        },
    decreases tabs.len() - i,
{
    if i < tabs.len() && !tabs[i].active {
        lemma_first_active(tabs, i + 1);
    }
}

/// The panes of tab position `pos`.
pub fn panes_of(m: &PaneManifest, pos: usize) -> (res: Vec<PaneInfo>)
    ensures
        res@ == panes_for(m.panes@, pos),
{
    let mut i: usize = 0;
    assert(m.panes@.skip(0) =~= m.panes@);
    while i < m.panes.len()
        invariant
            i <= m.panes@.len(),
            panes_for(m.panes@, pos) == panes_for(m.panes@.skip(i as int), pos),
        decreases m.panes.len() - i,
    {
        assert(m.panes@.skip(i as int)[0] == m.panes@[i as int]);
        if m.panes[i].0 == pos {
            return copy_panes(&m.panes[i].1);
        }
        assert(m.panes@.skip(i as int).skip(1) =~= m.panes@.skip(i + 1));
        i += 1;
    }
    Vec::new()
}

/// A copy of a pane.
pub fn copy_pane(p: &PaneInfo) -> (res: PaneInfo)
    ensures
        res == *p,
{
    PaneInfo {
        id: p.id,
        is_plugin: p.is_plugin,
        is_focused: p.is_focused,
        is_floating: p.is_floating,
        title: p.title.clone(),
        details: p.details.clone(),
    }
}

/// A copy of a list of panes.
pub fn copy_panes(v: &Vec<PaneInfo>) -> (res: Vec<PaneInfo>)
    ensures
        res@ == v@,
{
    let mut res: Vec<PaneInfo> = Vec::new();
    let mut i: usize = 0;
    while i < v.len()
        invariant
            i <= v@.len(),
            res@ == v@.take(i as int),
        decreases v.len() - i,
    {
        res.push(copy_pane(&v[i]));
        assert(res@ =~= v@.take(i + 1));
        i += 1;
    }
    assert(v@.take(v@.len() as int) =~= v@);
    res
}

impl TabInfo {
    /// A copy of this tab.
    pub fn duplicate(&self) -> (res: TabInfo)
        ensures
            res == *self,
    {
        TabInfo {
            tab_id: self.tab_id,
            position: self.position,
            name: self.name.clone(),
            active: self.active,
            is_fullscreen_active: self.is_fullscreen_active,
            is_sync_panes_active: self.is_sync_panes_active,
            has_bell_notification: self.has_bell_notification,
            is_flashing_bell: self.is_flashing_bell,
            details: self.details.clone(),
        }
    }
}

impl Default for TabInfo {
    fn default() -> (res: TabInfo)
        ensures
            res.tab_id == 0,
            res.position == 0,
            res.name@.len() == 0,
            !res.active,
            !res.is_fullscreen_active,
            !res.is_sync_panes_active,
            !res.has_bell_notification,
            !res.is_flashing_bell,
            res.details@.len() == 0,
    {
        TabInfo {
            tab_id: 0,
            position: 0,
            name: String::new(),
            active: false,
            is_fullscreen_active: false,
            is_sync_panes_active: false,
            has_bell_notification: false,
            is_flashing_bell: false,
            details: String::new(),
        }
    }
}

impl Default for ZellijState {
    fn default() -> (res: ZellijState)
        ensures
            res.cols == 0,
            res.tab_width_limit is None,
            res.mode.mode == InputMode::Normal,
            res.mode.details@.len() == 0,
            res.panes.panes@.len() == 0,
            res.tabs@.len() == 0,
            res.pipe_results@ == Map::<Seq<char>, Seq<char>>::empty(),
            res.cache_mask == 0,
    {
        ZellijState {
            cols: 0,
            tab_width_limit: None,
            mode: ModeInfo { mode: InputMode::Normal, details: String::new() },
            panes: PaneManifest { panes: Vec::new() },
            tabs: Vec::new(),
            pipe_results: Config::new(),
            cache_mask: 0,
        }
    }
}

} // verus!
