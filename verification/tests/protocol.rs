use zjstatus::config_map::Config;
use zjstatus::protocol::{parse_view_request, Role, ViewRequest, MAX_BAR_WIDTH};

fn config(entries: &[(&str, &str)]) -> Config {
    let mut c = Config::new();
    for (k, v) in entries {
        c.insert(k.to_string(), v.to_string());
    }
    c
}

#[test]
fn controller_view_protocol_is_bounded_and_exact() {
    assert_eq!(parse_view_request("width:220"), Some(ViewRequest::Width(220)));
    assert_eq!(parse_view_request("left:0:42"), Some(ViewRequest::LeftClick(0, 42)));
    assert_eq!(parse_view_request("right:0:7"), Some(ViewRequest::RightClick(0, 7)));
    for invalid in [
        "",
        "width:0",
        "width:10001",
        "width:80:extra",
        "left:1",
        "hover:0:1",
    ] {
        assert_eq!(parse_view_request(invalid), None, "{invalid:?}");
    }
}

#[test]
fn role_defaults_to_standalone() {
    assert_eq!(Role::from_config(&Config::new()), Role::Standalone);
    assert_eq!(Role::from_config(&config(&[("role", "view")])), Role::View);
    assert_eq!(Role::from_config(&config(&[("role", "controller")])), Role::Controller);
    assert_eq!(Role::from_config(&config(&[("role", "other")])), Role::Standalone);
}

#[test]
fn requests_read_back_as_sent() {
    for r in [
        ViewRequest::Width(1),
        ViewRequest::Width(220),
        ViewRequest::Width(MAX_BAR_WIDTH),
        ViewRequest::LeftClick(0, 42),
        ViewRequest::LeftClick(-3, 0),
        ViewRequest::RightClick(isize::MIN, usize::MAX),
        ViewRequest::RightClick(isize::MAX, 7),
    ] {
        assert_eq!(parse_view_request(&r.encode()), Some(r), "{r:?}");
    }
    assert_eq!(ViewRequest::Width(80).encode(), "width:80");
    assert_eq!(ViewRequest::LeftClick(-1, 5).encode(), "left:-1:5");
    assert_eq!(ViewRequest::RightClick(2, 0).encode(), "right:2:0");
}

#[test]
fn malformed_numbers_are_refused() {
    assert_eq!(parse_view_request("width:"), None);
    assert_eq!(parse_view_request("width:+5"), Some(ViewRequest::Width(5)));
    assert_eq!(parse_view_request("width:1e3"), None);
    assert_eq!(parse_view_request("left:x:1"), None);
    assert_eq!(parse_view_request("left:1:-1"), None);
    assert_eq!(parse_view_request("right:1:2:3"), None);
    assert_eq!(parse_view_request("width:99999999999999999999999"), None);
    assert_eq!(parse_view_request("left:-5:3"), Some(ViewRequest::LeftClick(-5, 3)));
    assert_eq!(parse_view_request("width:10000"), Some(ViewRequest::Width(10000)));
}
