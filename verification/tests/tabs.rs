use zjstatus::config_map::Config;
use zjstatus::state::{InputMode, ModeInfo, PaneManifest, TabInfo, ZellijState};
use zjstatus::tabs::{get_tab_window, TabsWidget};

fn config(entries: &[(&str, &str)]) -> Config {
    let mut c = Config::new();
    for (k, v) in entries {
        c.insert(k.to_string(), v.to_string());
    }
    c
}

fn tab(tab_id: usize, position: usize, name: &str, active: bool) -> TabInfo {
    TabInfo {
        tab_id,
        position,
        active,
        name: name.to_owned(),
        ..TabInfo::default()
    }
}

fn named(name: &str, active: bool) -> TabInfo {
    TabInfo {
        active,
        name: name.to_owned(),
        ..TabInfo::default()
    }
}

#[test]
fn width_fitting_keeps_active_tab_and_click_geometry() {
    let widget = TabsWidget::new(&config(&[
        ("tab_normal", "#[fg=blue][{index}] {name} "),
        ("tab_active", "#[fg=green][{index}] {name} {sync_indicator}"),
        ("tab_sync_indicator", "<>"),
        ("tab_display_count", "6"),
        ("tab_truncate_start_format", "< +{count} "),
        ("tab_truncate_end_format", " +{count} >"),
    ]));
    let mut state = ZellijState {
        tabs: (0..8)
            .map(|i| tab(i, i, "long-project-界e\u{301}-name", i == 7))
            .collect(),
        ..Default::default()
    };
    state.tabs[7].is_sync_panes_active = true;
    for width in (0..200).chain((0..200).rev()) {
        state.tab_width_limit = Some(width);
        let output = widget.process("tabs", &state);
        assert!(
            console::measure_text_width(&output) <= width,
            "width {width}: {output:?}"
        );
        if width >= 10 {
            let plain = console::strip_ansi_codes(&output);
            assert!(plain.contains("[8]"), "active tab lost at width {width}");
            assert!(plain.contains("<>"), "indicator lost at width {width}");
        }
    }
    state.tab_width_limit = Some(12);
    let output = widget.process("tabs", &state);
    for col in 0..console::measure_text_width(&output) {
        assert_eq!(widget.tab_at_column(&state, col), Some(8));
    }
    assert_eq!(widget.tab_at_column(&state, 12), None);
    state.tab_width_limit = None;
    assert!(widget
        .process("tabs", &state)
        .contains("long-project-界e\u{301}-name"));
}

#[test]
fn tabs_ignore_legacy_activity_payloads() {
    let widget = TabsWidget::new(&config(&[
        ("tab_normal", "n{index}:{name} "),
        ("tab_active", "a{index}:{name} "),
        ("tab_activity_pipe_name", "pipe_tab_activity"),
    ]));
    let state = ZellijState {
        tabs: vec![tab(10, 0, "editor", true), tab(20, 1, "agent", false)],
        pipe_results: config(&[(
            "pipe_tab_activity",
            r#"{"schema_version":1,"tabs":[{"tab_id":10,"tab_position":0,"base_name":"editor","active":true,"activity_state":"idle"},{"tab_id":20,"tab_position":1,"base_name":"agent","active":false,"activity_state":"busy"}]}"#,
        )]),
        ..ZellijState::default()
    };

    assert_eq!(widget.process("tabs", &state), "a1:editor n2:agent ");
    assert_eq!(state.tabs[1].name, "agent");
}

fn names(tabs: &[TabInfo]) -> Vec<(String, bool)> {
    tabs.iter().map(|t| (t.name.clone(), t.active)).collect()
}

fn check_window(active: usize, count: usize, max_count: Option<usize>, expected: (usize, usize, &[usize])) {
    let tabs: Vec<TabInfo> = (1..=count)
        .map(|i| named(&i.to_string(), i == active))
        .collect();
    let (before, after, shown) = get_tab_window(&tabs, max_count);
    assert_eq!((before, after), (expected.0, expected.1));
    let want: Vec<TabInfo> = expected
        .2
        .iter()
        .map(|&i| named(&i.to_string(), i == active))
        .collect();
    assert_eq!(names(&shown), names(&want));
    assert_eq!(shown, want);
}

#[test]
fn tab_window_centres_on_middle_active_tab() {
    check_window(3, 5, Some(3), (1, 1, &[2, 3, 4]));
}

#[test]
fn tab_window_starts_at_first_active_tab() {
    check_window(1, 5, Some(3), (0, 2, &[1, 2, 3]));
}

#[test]
fn tab_window_keeps_first_tab_before_second_active() {
    check_window(2, 5, Some(3), (0, 2, &[1, 2, 3]));
}

#[test]
fn tab_window_ends_at_last_active_tab() {
    check_window(5, 5, Some(3), (2, 0, &[3, 4, 5]));
}

#[test]
fn tab_window_ends_at_last_tabs_for_penultimate_active() {
    check_window(4, 5, Some(3), (2, 0, &[3, 4, 5]));
}

#[test]
fn tab_window_without_count_shows_all() {
    check_window(3, 5, None, (0, 0, &[1, 2, 3, 4, 5]));
}

#[test]
fn tab_window_with_fewer_tabs_than_count() {
    check_window(2, 2, Some(3), (0, 0, &[1, 2]));
}

#[test]
fn tab_window_with_as_many_tabs_as_count() {
    check_window(2, 3, Some(3), (0, 0, &[1, 2, 3]));
}

#[test]
fn tab_list_marks_hidden_tabs_with_counts() {
    let widget = TabsWidget::new(&config(&[
        ("tab_normal", "{index} "),
        ("tab_active", "*{index} "),
        ("tab_display_count", "3"),
        ("tab_truncate_start_format", "<{count} "),
        ("tab_truncate_end_format", ">{count}"),
    ]));
    let state = ZellijState {
        tabs: (0..7).map(|i| tab(i, i, "t", i == 3)).collect(),
        ..Default::default()
    };
    assert_eq!(widget.process("tabs", &state), "<2 3 *4 5 >2");
    assert_eq!(widget.tab_at_column(&state, 0), Some(2));
    assert_eq!(widget.tab_at_column(&state, 5), Some(4));
    assert_eq!(widget.tab_at_column(&state, 13), None);
}

#[test]
fn zero_width_limit_draws_nothing() {
    let widget = TabsWidget::new(&config(&[("tab_normal", "{name}")]));
    let state = ZellijState {
        tabs: vec![tab(0, 0, "a", true)],
        tab_width_limit: Some(0),
        ..Default::default()
    };
    assert_eq!(widget.process("tabs", &state), "");
    assert_eq!(widget.tab_at_column(&state, 0), None);
}

#[test]
fn single_tab_is_cut_to_the_limit() {
    let widget = TabsWidget::new(&config(&[("tab_normal", "<{name}>")]));
    let state = ZellijState {
        tabs: vec![tab(0, 0, "abcdefghij", true)],
        tab_width_limit: Some(6),
        ..Default::default()
    };
    let out = widget.process("tabs", &state);
    assert!(console::measure_text_width(&out) <= 6, "{out:?}");
    assert!(out.starts_with("<abc"), "{out:?}");
    assert!(out.contains('\u{2026}'), "{out:?}");
}

#[test]
fn closing_bracket_ends_the_style_directives() {
    let widget = TabsWidget::new(&config(&[("tab_normal", "[{name}] x")]));
    let state = ZellijState {
        tabs: vec![tab(0, 0, "a", true)],
        ..Default::default()
    };
    assert_eq!(widget.process("tabs", &state), " x");
}

#[test]
fn zero_based_index_counts_from_zero() {
    let widget = TabsWidget::new(&config(&[
        ("tab_normal", "{index}"),
        ("tab_zero_based_index", "true"),
    ]));
    let state = ZellijState {
        tabs: vec![tab(0, 0, "a", true), tab(1, 1, "b", false)],
        ..Default::default()
    };
    assert_eq!(widget.process("tabs", &state), "01");
}

#[test]
fn separator_stands_between_tabs_only() {
    let widget = TabsWidget::new(&config(&[
        ("tab_normal", "{name}"),
        ("tab_separator", "|"),
    ]));
    let state = ZellijState {
        tabs: vec![tab(0, 0, "a", true), tab(1, 1, "b", false), tab(2, 2, "c", false)],
        ..Default::default()
    };
    assert_eq!(widget.process("tabs", &state), "a|b|c");
}

#[test]
fn zero_width_limit_needs_no_active_tab() {
    let widget = TabsWidget::new(&config(&[("tab_normal", "{name}"), ("tab_display_count", "1")]));
    let state = ZellijState {
        tabs: vec![tab(0, 0, "a", false), tab(1, 1, "b", false)],
        tab_width_limit: Some(0),
        ..Default::default()
    };
    assert_eq!(widget.process("tabs", &state), "");
    assert!(widget.rendered_tabs(&state).is_empty());
    assert_eq!(widget.tab_at_column(&state, 0), None);
}

#[test]
fn last_position_is_drawn_when_its_index_is_not_shown() {
    let mode = ModeInfo { mode: InputMode::Normal, details: String::new() };
    let panes = PaneManifest { panes: vec![] };
    let last = tab(0, usize::MAX, "z", true);
    let named = TabsWidget::new(&config(&[("tab_normal", "<{name}>")]));
    assert_eq!(named.render_tab(&last, &panes, &mode), "<z>");
    let zero_based = TabsWidget::new(&config(&[
        ("tab_normal", "{index}"),
        ("tab_zero_based_index", "true"),
    ]));
    assert_eq!(zero_based.render_tab(&last, &panes, &mode), usize::MAX.to_string());
}
