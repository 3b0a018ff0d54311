use zjstatus::config::{HostTerminalThemeMode, Mouse};
use zjstatus::config_map::Config;
use zjstatus::host::{Effect, Event, EventKind, Permission, PipeSource};
use zjstatus::plugin::{register_widgets, Plugin};
use zjstatus::protocol::Role;
use zjstatus::state::{InputMode, ModeInfo, PaneInfo, PaneManifest, TabInfo};
use zjstatus::views::ViewTable;

fn config(entries: &[(&str, &str)]) -> Config {
    let mut c = Config::new();
    for (k, v) in entries {
        c.insert(k.to_string(), v.to_string());
    }
    c
}

fn tab(position: usize, name: &str, active: bool) -> TabInfo {
    TabInfo {
        tab_id: position,
        position,
        name: name.to_owned(),
        active,
        ..TabInfo::default()
    }
}

fn all_events() -> Vec<EventKind> {
    vec![
        EventKind::Mouse,
        EventKind::ModeUpdate,
        EventKind::PaneUpdate,
        EventKind::PermissionRequestResult,
        EventKind::Timer,
        EventKind::TabUpdate,
        EventKind::SessionUpdate,
        EventKind::RunCommandResult,
        EventKind::HostTerminalThemeChanged,
    ]
}

fn frame_message(id: u32, frame: &str) -> Effect {
    Effect::Message {
        name: "zjstatus.view_frame.v1".into(),
        destination: Some(id),
        payload: Some(frame.into()),
    }
}

fn request_message(payload: &str) -> Effect {
    Effect::Message {
        name: "zjstatus.view_request.v1".into(),
        destination: None,
        payload: Some(payload.into()),
    }
}

fn pad(s: &str, width: usize) -> String {
    format!("{s:<width$}")
}

fn bar_config() -> Config {
    config(&[("format_left", "{tabs}"), ("tab_normal", "{name} "), ("tab_active", "*{name} ")])
}

fn loaded(cfg: Config) -> Plugin {
    let mut p = Plugin::new();
    p.load(cfg);
    p
}

#[test]
fn standalone_load_asks_for_permissions_and_events() {
    let mut p = Plugin::new();
    let effects = p.load(bar_config());
    assert_eq!(
        effects,
        vec![
            Effect::RequestPermissions(vec![
                Permission::ReadApplicationState,
                Permission::ChangeApplicationState,
                Permission::RunCommands,
            ]),
            Effect::Subscribe(all_events()),
            Effect::ScheduleRefresh,
        ]
    );
    assert_eq!(p.role, Role::Standalone);
    assert!(!p.got_permissions);
    assert!(p.err.is_none());
    assert!(p.widgets.tabs.is_some());
}

#[test]
fn controller_load_also_asks_to_message_plugins() {
    let mut cfg = bar_config();
    cfg.insert("role".into(), "controller".into());
    let mut p = Plugin::new();
    let effects = p.load(cfg);
    assert_eq!(
        effects[0],
        Effect::RequestPermissions(vec![
            Permission::ReadApplicationState,
            Permission::ChangeApplicationState,
            Permission::RunCommands,
            Permission::MessageAndLaunchOtherPlugins,
        ])
    );
    assert_eq!(p.role, Role::Controller);
}

#[test]
fn view_load_listens_to_clicks_only() {
    let mut p = Plugin::new();
    let effects = p.load(config(&[("role", "view")]));
    assert_eq!(
        effects,
        vec![
            Effect::RequestPermissions(vec![
                Permission::ReadApplicationState,
                Permission::ChangeApplicationState,
                Permission::RunCommands,
                Permission::MessageAndLaunchOtherPlugins,
            ]),
            Effect::Subscribe(vec![EventKind::Mouse, EventKind::PermissionRequestResult]),
        ]
    );
    assert_eq!(p.role, Role::View);
    assert_eq!(p.view_width, None);
}

#[test]
fn refused_precedence_is_shown_as_the_bar() {
    let mut p = loaded(config(&[("format_left", "x"), ("format_precedence", "lq")]));
    assert!(p.err.is_some());
    assert_eq!(p.render(1, 40), vec![]);
    p.update(Event::PermissionRequestResult(true));
    assert_eq!(
        p.render(1, 40),
        vec![Effect::Print("Error: Invalid format_precedence: Invalid part: q\n".into())]
    );
}

#[test]
fn events_wait_for_permissions_and_are_replayed_in_order() {
    let mut p = loaded(bar_config());
    let (r, effects) = p.update(Event::TabUpdate(vec![tab(0, "a", true), tab(1, "b", false)]));
    assert!(!r);
    assert!(effects.is_empty());
    let (r, _) = p.update(Event::Timer);
    assert!(!r);
    assert_eq!(p.pending_events.len(), 2);
    assert_eq!(p.state.tabs.len(), 0);
    let (r, effects) = p.update(Event::PermissionRequestResult(true));
    assert!(r);
    assert!(p.got_permissions);
    assert!(p.pending_events.is_empty());
    assert_eq!(p.state.tabs.len(), 2);
    assert_eq!(p.state.cache_mask, 0);
    assert_eq!(effects, vec![Effect::ScheduleRefresh, Effect::SetSelectable(false)]);
    assert_eq!(p.render(1, 10), vec![Effect::Print(pad("*a b ", 10))]);
}

#[test]
fn unchanged_updates_do_not_redraw() {
    let mut p = loaded(bar_config());
    p.update(Event::PermissionRequestResult(true));
    let (r, _) = p.update(Event::TabUpdate(vec![tab(0, "a", true)]));
    assert!(r);
    assert_eq!(p.state.cache_mask, 0b0000_0011);
    let (r, _) = p.update(Event::TabUpdate(vec![tab(0, "a", true)]));
    assert!(!r);
    let (r, _) = p.update(Event::ModeUpdate(ModeInfo { mode: InputMode::Locked, details: String::new() }));
    assert!(r);
    assert_eq!(p.state.cache_mask, 0b0000_0001);
    let (r, _) = p.update(Event::ModeUpdate(ModeInfo { mode: InputMode::Locked, details: String::new() }));
    assert!(!r);
    let (r, effects) = p.update(Event::Timer);
    assert!(r);
    assert_eq!(effects, vec![Effect::ScheduleRefresh]);
    let (r, effects) = p.update(Event::Other);
    assert!(!r && effects.is_empty());
}

#[test]
fn clicking_a_tab_switches_to_it() {
    let mut p = loaded(bar_config());
    p.update(Event::PermissionRequestResult(true));
    p.update(Event::TabUpdate(vec![tab(0, "a", true), tab(1, "b", false)]));
    p.render(1, 10);
    let (_, effects) = p.update(Event::Mouse(Mouse::LeftClick(0, 3)));
    assert_eq!(effects, vec![Effect::SwitchTab(2)]);
    let (_, effects) = p.update(Event::Mouse(Mouse::LeftClick(0, 8)));
    assert_eq!(effects, vec![]);
}

#[test]
fn missing_active_tab_stops_the_bar() {
    let mut cfg = bar_config();
    cfg.insert("tab_display_count".into(), "1".into());
    let mut p = loaded(cfg);
    p.update(Event::PermissionRequestResult(true));
    p.update(Event::TabUpdate(vec![tab(0, "a", false), tab(1, "b", false)]));
    assert_eq!(p.render(1, 10), vec![Effect::Fail("no active tab".into())]);
}

#[test]
fn controller_answers_views_with_frames_of_their_width() {
    let mut cfg = bar_config();
    cfg.insert("role".into(), "controller".into());
    let mut p = loaded(cfg);
    let (r, effects) = p.update(Event::PermissionRequestResult(true));
    assert!(!r);
    assert_eq!(
        effects,
        vec![
            Effect::SetSelectable(false),
            Effect::Message {
                name: "zjstatus.controller_ready.v1".into(),
                destination: None,
                payload: None,
            },
        ]
    );
    p.update(Event::TabUpdate(vec![tab(0, "a", true), tab(1, "b", false)]));
    let (r, effects) = p.pipe("zjstatus.view_request.v1", PipeSource::Plugin(7), Some("width:6".into()));
    assert!(!r);
    assert_eq!(effects, vec![frame_message(7, &pad("*a b ", 6))]);
    let (_, effects) = p.pipe("zjstatus.view_request.v1", PipeSource::Plugin(3), Some("width:8".into()));
    assert_eq!(effects, vec![frame_message(3, &pad("*a b ", 8))]);
    assert_eq!(p.views.len(), 2);
    assert_eq!(p.views.entries(), vec![(3, 8), (7, 6)]);
    let (r, effects) = p.update(Event::TabUpdate(vec![tab(0, "a", false), tab(1, "b", true)]));
    assert!(!r);
    assert_eq!(
        effects,
        vec![frame_message(3, &pad("a *b ", 8)), frame_message(7, &pad("a *b ", 6))]
    );
    assert_eq!(p.render(1, 80), vec![]);
    let (_, effects) = p.pipe("zjstatus.view_request.v1", PipeSource::Plugin(7), Some("left:0:0".into()));
    assert_eq!(effects, vec![Effect::SwitchTab(1)]);
    assert_eq!(p.state.cols, 6);
    let (_, effects) = p.pipe("zjstatus.view_request.v1", PipeSource::Plugin(9), Some("left:0:0".into()));
    assert_eq!(effects, vec![]);
    let (_, effects) = p.pipe("zjstatus.view_request.v1", PipeSource::Cli, Some("width:6".into()));
    assert_eq!(effects, vec![]);
    let (_, effects) = p.pipe("zjstatus.view_request.v1", PipeSource::Plugin(7), Some("width:0".into()));
    assert_eq!(effects, vec![]);
}

#[test]
fn controller_forgets_views_whose_pane_closed() {
    let mut cfg = bar_config();
    cfg.insert("role".into(), "controller".into());
    let mut p = loaded(cfg);
    p.pipe("zjstatus.view_request.v1", PipeSource::Plugin(7), Some("width:6".into()));
    p.pipe("zjstatus.view_request.v1", PipeSource::Plugin(3), Some("width:8".into()));
    assert_eq!(p.views.len(), 2);
    p.update(Event::PermissionRequestResult(true));
    let pane = |id: u32, is_plugin: bool| PaneInfo {
        id,
        is_plugin,
        is_focused: false,
        is_floating: false,
        title: String::new(),
        details: String::new(),
    };
    let manifest = PaneManifest { panes: vec![(0, vec![pane(3, false), pane(7, true)])] };
    p.update(Event::PaneUpdate(manifest));
    assert_eq!(p.views.len(), 1);
    assert_eq!(p.views.get(7), Some(6));
    assert_eq!(p.views.get(3), None);
}

#[test]
fn view_shows_the_frames_it_is_sent() {
    let mut p = loaded(config(&[("role", "view")]));
    assert_eq!(p.render(1, 30), vec![Effect::Print(" \u{2026} ".into())]);
    assert_eq!(p.view_width, Some(30));
    let (r, effects) = p.update(Event::PermissionRequestResult(true));
    assert!(r);
    assert_eq!(effects, vec![request_message("width:30")]);
    let (r, effects) = p.pipe("zjstatus.view_frame.v1", PipeSource::Plugin(1), Some("frame".into()));
    assert!(r && effects.is_empty());
    assert_eq!(p.render(1, 30), vec![Effect::Print("frame".into())]);
    assert_eq!(
        p.render(1, 40),
        vec![request_message("width:40"), Effect::Print(" \u{2026} ".into())]
    );
    let (_, effects) = p.update(Event::Mouse(Mouse::RightClick(0, 12)));
    assert_eq!(effects, vec![request_message("right:0:12")]);
    let (_, effects) = p.pipe("zjstatus.controller_ready.v1", PipeSource::Plugin(1), None);
    assert_eq!(effects, vec![request_message("width:40")]);
    let (r, effects) = p.update(Event::Timer);
    assert!(!r && effects.is_empty());
}

#[test]
fn host_theme_changes_follow_the_configured_palette() {
    let cfg = config(&[
        ("format_left", "base"),
        ("host_theme_mode", "dark"),
        ("host_theme_dark_format_left", "dark"),
        ("host_theme_light_format_left", "light"),
    ]);
    let mut p = loaded(cfg);
    p.update(Event::PermissionRequestResult(true));
    assert_eq!(p.render(1, 5), vec![Effect::Print("dark ".into())]);
    let (r, _) = p.update(Event::HostTerminalThemeChanged(HostTerminalThemeMode::Light));
    assert!(r);
    assert_eq!(p.render(1, 5), vec![Effect::Print("light".into())]);
    let mut q = loaded(config(&[("format_left", "base")]));
    q.update(Event::PermissionRequestResult(true));
    let (r, _) = q.update(Event::HostTerminalThemeChanged(HostTerminalThemeMode::Light));
    assert!(!r);
}

#[test]
fn registered_widgets_hold_the_tab_list() {
    let w = register_widgets(&bar_config());
    assert!(w.tabs.is_some());
    assert_eq!(w.outputs.len(), 0);
}

#[test]
fn view_table_keeps_one_width_per_view_in_id_order() {
    let mut t = ViewTable::new();
    t.insert(5, 10);
    t.insert(2, 20);
    t.insert(9, 30);
    t.insert(5, 40);
    assert_eq!(t.len(), 3);
    assert_eq!(t.entries(), vec![(2, 20), (5, 40), (9, 30)]);
    assert_eq!(t.get(5), Some(40));
    assert_eq!(t.get(4), None);
    t.clear();
    assert_eq!(t.len(), 0);
}

#[test]
fn a_bar_without_the_tab_list_draws_whatever_the_tabs() {
    let mut p = loaded(config(&[("format_left", "x"), ("tab_display_count", "1")]));
    p.update(Event::PermissionRequestResult(true));
    p.update(Event::TabUpdate(vec![tab(0, "a", false), tab(1, "b", false)]));
    assert_eq!(p.render(1, 3), vec![Effect::Print("x  ".into())]);
}

#[test]
fn short_precedence_with_trimming_stops_the_bar() {
    let mut p = loaded(config(&[
        ("format_left", "x"),
        ("format_hide_on_overlength", "true"),
        ("format_precedence", "lr"),
    ]));
    p.update(Event::PermissionRequestResult(true));
    assert_eq!(
        p.render(1, 3),
        vec![Effect::Fail("format_precedence names fewer than three sections".into())]
    );
}

#[test]
fn any_difference_the_host_reports_redraws() {
    let mut p = loaded(bar_config());
    p.update(Event::PermissionRequestResult(true));
    let mode = |details: &str| ModeInfo { mode: InputMode::Normal, details: details.into() };
    let (r, _) = p.update(Event::ModeUpdate(mode("session a")));
    assert!(r);
    let (r, _) = p.update(Event::ModeUpdate(mode("session a")));
    assert!(!r);
    let (r, _) = p.update(Event::ModeUpdate(mode("session b")));
    assert!(r);
    let with = |details: &str| TabInfo { details: details.into(), ..tab(0, "a", true) };
    let (r, _) = p.update(Event::TabUpdate(vec![with("x")]));
    assert!(r);
    let (r, _) = p.update(Event::TabUpdate(vec![with("x")]));
    assert!(!r);
    let (r, _) = p.update(Event::TabUpdate(vec![with("y")]));
    assert!(r);
}

#[test]
fn the_starting_mode_reported_again_does_not_redraw() {
    let mut p = loaded(bar_config());
    p.update(Event::PermissionRequestResult(true));
    let (r, _) = p.update(Event::ModeUpdate(ModeInfo { mode: InputMode::Normal, details: String::new() }));
    assert!(!r);
}
