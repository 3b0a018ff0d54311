//! What the host hands the bar (events and messages) and what the bar asks
//! of the host in return.
use vstd::prelude::*;

use crate::config::{HostTerminalThemeMode, Mouse};
use crate::config_map::same_chars;
use crate::state::{InputMode, ModeInfo, PaneInfo, PaneManifest, TabInfo};
use crate::text::chars_of;

verus! {

/// An event the host delivers.
#[derive(Debug, PartialEq, Eq)]
pub enum Event {
    Mouse(Mouse),
    ModeUpdate(ModeInfo),
    PaneUpdate(PaneManifest),
    /// Whether the permissions asked for were granted.
    PermissionRequestResult(bool),
    RunCommandResult,
    SessionUpdate,
    TabUpdate(Vec<TabInfo>),
    Timer,
    HostTerminalThemeChanged(HostTerminalThemeMode),
    Other,
}

/// The kinds of events the bar subscribes to.
#[derive(Clone, Copy, Debug, PartialEq, Eq, Structural)]
pub enum EventKind {
    Mouse,
    ModeUpdate,
    PaneUpdate,
    PermissionRequestResult,
    Timer,
    TabUpdate,
    SessionUpdate,
    RunCommandResult,
    HostTerminalThemeChanged,
}

/// The permissions the bar asks for.
#[derive(Clone, Copy, Debug, PartialEq, Eq, Structural)]
pub enum Permission {
    ReadApplicationState,
    ChangeApplicationState,
    RunCommands,
    MessageAndLaunchOtherPlugins,
}

/// Where a piped message comes from.
#[derive(Clone, Copy, Debug, PartialEq, Eq, Structural)]
pub enum PipeSource {
    Cli,
    /// Another plugin, by id.
    Plugin(u32),
    Keybind,
}

/// What the bar asks the host to do.
#[derive(Debug, PartialEq, Eq)]
pub enum Effect {
    RequestPermissions(Vec<Permission>),
    Subscribe(Vec<EventKind>),
    /// Deliver a timer event after the refresh interval.
    ScheduleRefresh,
    SetSelectable(bool),
    /// Send a message with this name, to this plugin or to every plugin
    /// that listens, with this payload.
    Message { name: String, destination: Option<u32>, payload: Option<String> },
    /// Switch to the tab with this 1-based position.
    SwitchTab(u32),
    /// Hand a click to the widget instance with this name, at this column
    /// of its output.
    WidgetClick(String, usize),
    /// Show this text as the bar.
    Print(String),
    /// Stop: the bar cannot go on.
    Fail(String),
}

/// What an effect stands for.
pub enum EffectView {
    RequestPermissions(Seq<Permission>),
    Subscribe(Seq<EventKind>),
    ScheduleRefresh,
    SetSelectable(bool),
    Message(Seq<char>, Option<u32>, Option<Seq<char>>),
    SwitchTab(u32),
    WidgetClick(Seq<char>, usize),
    Print(Seq<char>),
    Fail(Seq<char>),
}

pub open spec fn effect_view(e: Effect) -> EffectView {
    match e {
        Effect::RequestPermissions(p) => EffectView::RequestPermissions(p@),
        Effect::Subscribe(k) => EffectView::Subscribe(k@),
        Effect::ScheduleRefresh => EffectView::ScheduleRefresh,
        Effect::SetSelectable(b) => EffectView::SetSelectable(b),
        Effect::Message { name, destination, payload } => EffectView::Message(
            name@,
            destination,
            match payload {
                Some(p) => Some(p@),
                None => None,
            },
        ),
        Effect::SwitchTab(t) => EffectView::SwitchTab(t),
        Effect::WidgetClick(n, c) => EffectView::WidgetClick(n@, c),
        Effect::Print(s) => EffectView::Print(s@),
        Effect::Fail(s) => EffectView::Fail(s@),
    }
}

pub open spec fn effects_view(v: Seq<Effect>) -> Seq<EffectView> {
    v.map_values(|e: Effect| effect_view(e))
}

/// Appends `e` to the effects, keeping their view in step.
pub fn push_effect(v: &mut Vec<Effect>, e: Effect)
    ensures
        effects_view(final(v)@) == effects_view(old(v)@).push(effect_view(e)),
{
    v.push(e);
    assert(effects_view(v@) =~= effects_view(old(v)@).push(effect_view(e)));
}

// ---------------------------------------------------------------------------
// What changed
// ---------------------------------------------------------------------------

/// What the bar keeps of a pane.
pub open spec fn pane_view(p: PaneInfo) -> (u32, bool, bool, bool, Seq<char>, Seq<char>) {
    (p.id, p.is_plugin, p.is_focused, p.is_floating, p.title@, p.details@)
}

/// What the bar keeps of a tab.
pub open spec fn tab_view(t: TabInfo) -> (usize, usize, Seq<char>, bool, bool, bool, bool, bool, Seq<char>) {
    (
        t.tab_id,
        t.position,
        t.name@,
        t.active,
        t.is_fullscreen_active,
        t.is_sync_panes_active,
        t.has_bell_notification,
        t.is_flashing_bell,
        t.details@,
    )
}

/// What the bar keeps of a mode.
pub open spec fn mode_view(m: ModeInfo) -> (InputMode, Seq<char>) {
    (m.mode, m.details@)
}

pub open spec fn panes_view(v: Seq<PaneInfo>) -> Seq<(u32, bool, bool, bool, Seq<char>, Seq<char>)> {
    v.map_values(|p: PaneInfo| pane_view(p))
}

pub open spec fn manifest_view(m: PaneManifest) -> Seq<
    (usize, Seq<(u32, bool, bool, bool, Seq<char>, Seq<char>)>),
> {
    m.panes@.map_values(|e: (usize, Vec<PaneInfo>)| (e.0, panes_view(e.1@)))
}

pub open spec fn tabs_view(v: Seq<TabInfo>) -> Seq<
    (usize, usize, Seq<char>, bool, bool, bool, bool, bool, Seq<char>),
> {
    v.map_values(|t: TabInfo| tab_view(t))
}

fn same_string(a: &String, b: &String) -> (res: bool)
    ensures
        res == (a@ == b@),
{
    same_chars(&chars_of(a.as_str()), &chars_of(b.as_str()))
}

fn same_pane(a: &PaneInfo, b: &PaneInfo) -> (res: bool)
    ensures
        res == (pane_view(*a) == pane_view(*b)),
{
    a.id == b.id && a.is_plugin == b.is_plugin && a.is_focused == b.is_focused && a.is_floating
        == b.is_floating && same_string(&a.title, &b.title) && same_string(&a.details, &b.details)
}

fn same_panes(a: &Vec<PaneInfo>, b: &Vec<PaneInfo>) -> (res: bool)
    ensures
        res == (panes_view(a@) == panes_view(b@)),
{
    if a.len() != b.len() {
        assert(panes_view(a@).len() != panes_view(b@).len());
        return false;
    }
    let mut i: usize = 0;
    while i < a.len()
        invariant
            a@.len() == b@.len(),
            i <= a@.len(),
            forall|k: int| 0 <= k < i ==> pane_view(#[trigger] a@[k]) == pane_view(b@[k]),
        decreases a.len() - i,
    {
        if !same_pane(&a[i], &b[i]) {
            assert(panes_view(a@)[i as int] != panes_view(b@)[i as int]);
            return false;
        }
        i += 1;
    }
    assert(panes_view(a@) =~= panes_view(b@));
    true
}

/// Whether two pane manifests hold the same panes.
pub fn same_manifest(a: &PaneManifest, b: &PaneManifest) -> (res: bool)
    ensures
        res == (manifest_view(*a) == manifest_view(*b)),
{
    if a.panes.len() != b.panes.len() {
        assert(manifest_view(*a).len() != manifest_view(*b).len());
        return false;
    }
    let mut i: usize = 0;
    while i < a.panes.len()
        invariant
            a.panes@.len() == b.panes@.len(),
            i <= a.panes@.len(),
            forall|k: int|
                0 <= k < i ==> (#[trigger] manifest_view(*a)[k]) == manifest_view(*b)[k],
        decreases a.panes.len() - i,
    {
        if a.panes[i].0 != b.panes[i].0 || !same_panes(&a.panes[i].1, &b.panes[i].1) {
            assert(manifest_view(*a)[i as int] != manifest_view(*b)[i as int]);
            return false;
        }
        assert(manifest_view(*a)[i as int] == manifest_view(*b)[i as int]);
        i += 1;
    }
    assert(manifest_view(*a) =~= manifest_view(*b));
    true
}

fn same_tab(a: &TabInfo, b: &TabInfo) -> (res: bool)
    ensures
        res == (tab_view(*a) == tab_view(*b)),
{
    a.tab_id == b.tab_id && a.position == b.position && same_string(&a.name, &b.name) && a.active
        == b.active && a.is_fullscreen_active == b.is_fullscreen_active && a.is_sync_panes_active
        == b.is_sync_panes_active && a.has_bell_notification == b.has_bell_notification
        && a.is_flashing_bell == b.is_flashing_bell && same_string(&a.details, &b.details)
}

/// Whether two modes are the same.
pub fn same_mode(a: &ModeInfo, b: &ModeInfo) -> (res: bool)
    ensures
        res == (mode_view(*a) == mode_view(*b)),
{
    a.mode == b.mode && same_string(&a.details, &b.details)
}

/// Whether two lists of tabs are the same.
pub fn same_tabs(a: &Vec<TabInfo>, b: &Vec<TabInfo>) -> (res: bool)
    ensures
        res == (tabs_view(a@) == tabs_view(b@)),
{
    if a.len() != b.len() {
        assert(tabs_view(a@).len() != tabs_view(b@).len());
        return false;
    }
    let mut i: usize = 0;
    while i < a.len()
        invariant
            a@.len() == b@.len(),
            i <= a@.len(),
            forall|k: int| 0 <= k < i ==> tab_view(#[trigger] a@[k]) == tab_view(b@[k]),
        decreases a.len() - i,
    {
        if !same_tab(&a[i], &b[i]) {
            assert(tabs_view(a@)[i as int] != tabs_view(b@)[i as int]);
            return false;
        }
        i += 1;
    }
    assert(tabs_view(a@) =~= tabs_view(b@));
    true
}

} // verus!
