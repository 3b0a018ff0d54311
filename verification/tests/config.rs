use zjstatus::config::{
    configured_host_theme_mode, event_mask_from_widget_name, host_theme_configuration,
    ClickAction, ConfigError, HostTerminalThemeMode, ModuleConfig, Mouse, Part, UpdateEventMask,
};
use zjstatus::config_map::Config;
use zjstatus::render::Widgets;
use zjstatus::state::{TabInfo, ZellijState};
use zjstatus::style::{Color, Effects, FormattedPart};
use zjstatus::tabs::TabsWidget;

fn config(entries: &[(&str, &str)]) -> Config {
    let mut c = Config::new();
    for (k, v) in entries {
        c.insert(k.to_string(), v.to_string());
    }
    c
}

fn no_effects() -> Effects {
    Effects {
        bold: false,
        dimmed: false,
        italic: false,
        underline: false,
        double_underline: false,
        curly_underline: false,
        dotted_underline: false,
        dashed_underline: false,
        blink: false,
        invert: false,
        hidden: false,
        strikethrough: false,
    }
}

fn state_with_cols(cols: usize) -> ZellijState {
    ZellijState {
        cols,
        ..Default::default()
    }
}

#[test]
fn right_segments_yield_to_tabs_and_keep_visible_clicks() {
    let config = config(&[
        ("format_left", "tabs"),
        (
            "format_right",
            "{command_editor}{segment}{command_empty}{segment}#[fg=red]{command_cpu}{segment}{command_version}",
        ),
        ("format_right_separator", " • "),
        ("format_hide_on_overlength", "true"),
        ("format_precedence", "lrc"),
    ]);
    let widgets = Widgets {
        tabs: None,
        outputs: {
            let mut o = Config::new();
            o.insert("command_editor".into(), "界e\u{301}".into());
            o.insert("command_cpu".into(), "cpu".into());
            o.insert("command_version".into(), "ver".into());
            o.insert("command_empty".into(), "".into());
            o
        },
    };
    let renderer = ModuleConfig::new(&config).unwrap();
    for (cols, expected) in [
        (30, "界e\u{301} • cpu • ver"),
        (18, "界e\u{301} • cpu"),
        (12, "界e\u{301}"),
        (6, ""),
        (30, "界e\u{301} • cpu • ver"),
    ] {
        let output = renderer.render_bar(state_with_cols(cols), &widgets);
        let plain = console::strip_ansi_codes(&output);
        assert_eq!(console::measure_text_width(&output), cols);
        assert!(plain.starts_with("tabs"));
        assert_eq!(plain[4..].trim(), expected, "width {cols}");
        let mut clicks: Vec<String> = Vec::new();
        for col in 0..cols {
            if let ClickAction::Widget(name, _) =
                renderer.handle_mouse_action(state_with_cols(cols), Mouse::LeftClick(0, col), &widgets)
            {
                clicks.push(name);
            }
        }
        assert_eq!(
            clicks.iter().filter(|n| n.as_str() == "command_editor").count(),
            if expected.is_empty() { 0 } else { 3 }
        );
        assert_eq!(
            clicks.iter().filter(|n| n.as_str() == "command_cpu").count(),
            if expected.contains("cpu") { 3 } else { 0 }
        );
        assert_eq!(
            clicks.iter().filter(|n| n.as_str() == "command_version").count(),
            if expected.contains("ver") { 3 } else { 0 }
        );
        assert!(!clicks.iter().any(|n| n == "command_empty"));
    }
}

#[test]
fn test_formatted_part_from_string() {
    let input = "#[fg=#ff0000,bg=#00ff00,bold,italic]foo";

    let part = FormattedPart::from_format_string(input, &Config::new());

    assert_eq!(
        part,
        FormattedPart {
            fg: Some(Color::Rgb(255, 0, 0)),
            bg: Some(Color::Rgb(0, 255, 0)),
            effects: Effects {
                bold: true,
                italic: true,
                ..no_effects()
            },
            content: "foo".to_owned(),
        },
    )
}

#[test]
fn host_theme_overlays_only_the_selected_palette() {
    let config = config(&[
        ("format_right", "base"),
        ("host_theme_mode", "dark"),
        ("host_theme_dark_format_right", "dark bar"),
        ("host_theme_light_format_right", "light bar"),
        ("host_theme_light_tab_normal", "light tab"),
    ]);

    let dark = host_theme_configuration(&config, HostTerminalThemeMode::Dark);
    assert_eq!(dark.get("format_right").map(String::as_str), Some("dark bar"));
    assert_eq!(dark.get("tab_normal"), None);
    assert_eq!(configured_host_theme_mode(&dark), Some(HostTerminalThemeMode::Dark));

    let light = host_theme_configuration(&config, HostTerminalThemeMode::Light);
    assert_eq!(light.get("format_right").map(String::as_str), Some("light bar"));
    assert_eq!(light.get("tab_normal").map(String::as_str), Some("light tab"));
    assert_eq!(configured_host_theme_mode(&light), Some(HostTerminalThemeMode::Light));
}

#[test]
fn host_theme_mode_must_be_dark_or_light() {
    assert_eq!(configured_host_theme_mode(&config(&[("host_theme_mode", "dim")])), None);
    assert_eq!(configured_host_theme_mode(&Config::new()), None);
}

#[test]
fn part_names_are_single_letters() {
    assert_eq!(Part::from_str("l"), Ok(Part::Left));
    assert_eq!(Part::from_str("c"), Ok(Part::Center));
    assert_eq!(Part::from_str("r"), Ok(Part::Right));
    assert_eq!(Part::from_str("x"), Err(ConfigError::InvalidPart("x".to_owned())));
    assert_eq!(Part::from_str("lc"), Err(ConfigError::InvalidPart("lc".to_owned())));
    assert_eq!(
        ConfigError::InvalidPart("x".to_owned()).message(),
        "Invalid part: x"
    );
}

#[test]
fn invalid_precedence_is_refused() {
    let res = ModuleConfig::new(&config(&[("format_precedence", "lxr")]));
    assert_eq!(res.as_ref().err(), Some(&ConfigError::InvalidFormatPrecedence("x".to_owned())));
    assert_eq!(
        res.err().unwrap().message(),
        "Invalid format_precedence: Invalid part: x"
    );
}

#[test]
fn default_precedence_is_left_center_right() {
    let mc = ModuleConfig::new(&Config::new()).unwrap();
    assert_eq!(mc.format_precedence, vec![Part::Left, Part::Center, Part::Right]);
    assert!(!mc.hide_on_overlength);
    let mc = ModuleConfig::new(&config(&[("format_precedence", "crl")])).unwrap();
    assert_eq!(mc.format_precedence, vec![Part::Center, Part::Right, Part::Left]);
}

#[test]
fn unconfigured_bar_points_to_the_documentation() {
    let mc = ModuleConfig::new(&Config::new()).unwrap();
    let widgets = Widgets { tabs: None, outputs: Config::new() };
    assert_eq!(
        mc.render_bar(state_with_cols(40), &widgets),
        "No configuration found. See https://github.com/dj95/zjstatus/wiki/3-%E2%80%90-Configuration for more info"
    );
}

#[test]
fn sections_are_spread_over_the_width() {
    let mc = ModuleConfig::new(&config(&[
        ("format_left", "L"),
        ("format_center", "CCC"),
        ("format_right", "RR"),
    ]))
    .unwrap();
    let widgets = Widgets { tabs: None, outputs: Config::new() };
    let out = mc.render_bar(state_with_cols(11), &widgets);
    assert_eq!(out, "L   CCC  RR");
    let mc = ModuleConfig::new(&config(&[("format_left", "L"), ("format_right", "RR")])).unwrap();
    assert_eq!(mc.render_bar(state_with_cols(6), &widgets), "L   RR");
}

#[test]
fn spacers_centre_the_middle_section() {
    let mc = ModuleConfig::new(&Config::new()).unwrap();
    assert_eq!(mc.get_spacer_left("ab", "cde", 11), "  ");
    assert_eq!(mc.get_spacer_right("f", "cde", 11), "   ");
    assert_eq!(mc.get_spacer("ab", "f", 11), "        ");
    assert_eq!(mc.get_spacer("abcdef", "ghijkl", 5), "");
}

#[test]
fn trimming_hides_the_lowest_ranked_overlapping_section() {
    let mc = ModuleConfig::new(&config(&[
        ("format_hide_on_overlength", "true"),
        ("format_precedence", "lrc"),
    ]))
    .unwrap();
    let (l, c, r) = mc.trim_output("aaaaaa", "bb", "cccccc", 10);
    assert_eq!((l.as_str(), c.as_str(), r.as_str()), ("aaaaaa", "", ""));
    let (l, c, r) = mc.trim_output("aa", "bb", "cc", 20);
    assert_eq!((l.as_str(), c.as_str(), r.as_str()), ("aa", "bb", "cc"));
}

#[test]
fn widget_event_masks() {
    assert_eq!(event_mask_from_widget_name("command"), UpdateEventMask::Always.bits());
    assert_eq!(event_mask_from_widget_name("datetime"), 0b1000_0000);
    assert_eq!(event_mask_from_widget_name("mode"), 0b0000_0001);
    assert_eq!(event_mask_from_widget_name("session"), 0b0000_0001);
    assert_eq!(event_mask_from_widget_name("tabs"), 0b0000_0011);
    assert_eq!(event_mask_from_widget_name("swap_layout"), 0b0000_0011);
    assert_eq!(event_mask_from_widget_name("pipe"), 0b1000_0000);
    assert_eq!(event_mask_from_widget_name("notifications"), 0b1000_0000);
    assert_eq!(event_mask_from_widget_name("other"), 0);
}

#[test]
fn tab_list_in_a_bar_switches_tabs_on_click() {
    let cfg = config(&[("format_left", "{tabs}"), ("tab_normal", "<{name}>")]);
    let mc = ModuleConfig::new(&cfg).unwrap();
    let widgets = Widgets { tabs: Some(TabsWidget::new(&cfg)), outputs: Config::new() };
    let state = || ZellijState {
        cols: 20,
        tabs: vec![
            TabInfo { tab_id: 1, position: 0, name: "ab".into(), active: true, ..TabInfo::default() },
            TabInfo { tab_id: 2, position: 1, name: "cd".into(), active: false, ..TabInfo::default() },
        ],
        ..Default::default()
    };
    assert_eq!(mc.render_bar(state(), &widgets), "<ab><cd>            ");
    assert_eq!(mc.handle_mouse_action(state(), Mouse::LeftClick(0, 1), &widgets), ClickAction::SwitchTab(1));
    assert_eq!(mc.handle_mouse_action(state(), Mouse::RightClick(0, 5), &widgets), ClickAction::SwitchTab(2));
    assert_eq!(mc.handle_mouse_action(state(), Mouse::LeftClick(0, 12), &widgets), ClickAction::Nothing);
    assert_eq!(mc.handle_mouse_action(state(), Mouse::Hover(0, 1), &widgets), ClickAction::Nothing);
}

#[test]
fn styled_parts_are_reset_after_their_text() {
    let part = FormattedPart::from_format_string("#[fg=red,bold]x", &Config::new());
    assert_eq!(part.fg, Some(Color::Ansi256(1)));
    assert!(part.effects.bold);
    let out = part.format_string("x");
    assert!(out.ends_with("\u{1b}[0m"), "{out:?}");
    assert_eq!(console::strip_ansi_codes(&out), "x");
    let plain = FormattedPart::from_format_string("plain", &Config::new());
    assert_eq!(plain.format_string("y"), "y");
}

#[test]
fn styled_text_carries_exact_escape_codes() {
    let part = FormattedPart::from_format_string("#[fg=red,bg=#0000ff,bold]x", &Config::new());
    assert_eq!(
        part.format_string("x"),
        "\u{1b}[1m\u{1b}[38;5;1m\u{1b}[48;2;0;0;255mx\u{1b}[0m"
    );
}

#[test]
fn segments_that_draw_nothing_are_skipped() {
    let cfg = config(&[
        ("format_right", "{command_a}{segment}#[fg=red]{command_empty}{segment}{command_b}"),
        ("format_right_separator", " • "),
    ]);
    let widgets = Widgets {
        tabs: None,
        outputs: {
            let mut o = Config::new();
            o.insert("command_a".into(), "a".into());
            o.insert("command_b".into(), "b".into());
            o.insert("command_empty".into(), "".into());
            o
        },
    };
    let mc = ModuleConfig::new(&cfg).unwrap();
    let out = mc.render_bar(state_with_cols(10), &widgets);
    assert_eq!(out, "     a • b");
}
