//! The bar as a plugin of the host: what each event, message and redraw
//! does to the bar's state, and what the bar asks of the host in return.
//! The host performs the effects in the order given; a `Fail` effect ends
//! the plugin.
use vstd::prelude::*;

use crate::config::{
    configured_host_theme_mode, configured_mode_spec, error_message, host_theme_configuration,
    precedence_error, themed_spec, ClickAction, ConfigError, HostTerminalThemeMode, ModuleConfig,
    Mouse, UpdateEventMask,
};
use crate::config_map::{opt_view, same_chars, Config};
use crate::host::{
    effect_view, effects_view, manifest_view, mode_view, push_effect, same_manifest, same_mode,
    same_tabs, tabs_view,
    Effect, EffectView, Event, EventKind, Permission, PipeSource,
};
use crate::protocol::{
    encode_spec, lemma_request_roundtrip, parse_view_request, role_spec, sendable, view_request_spec,
    Role, ViewRequest,
};
use crate::render::Widgets;
use crate::style::{plain_style, PartView};
use crate::state::{InputMode, ZellijState};
use crate::tabs::TabsWidget;
use crate::text::{chars_of, string_of};
use crate::views::{live_views, ordered, ViewTable};

verus! {

/// The name of the messages a view sends to the controller.
pub open spec fn view_request_pipe() -> Seq<char> {
    "zjstatus.view_request.v1"@
}

/// The name of the messages that carry a frame to a view.
pub open spec fn view_frame_pipe() -> Seq<char> {
    "zjstatus.view_frame.v1"@
}

/// The name of the message a controller sends when it can render.
pub open spec fn controller_ready_pipe() -> Seq<char> {
    "zjstatus.controller_ready.v1"@
}

/// What a view shows while it has no frame.
pub open spec fn waiting_text() -> Seq<char> {
    " \u{2026} "@
}

fn text(s: &str) -> (res: String)
    ensures
        res@ == s@,
{
    string_of(&chars_of(s))
}

fn is_named(name: &str, lit: &str) -> (res: bool)
    ensures
        res == (name@ == lit@),
{
    same_chars(&chars_of(name), &chars_of(lit))
}

/// The widgets are the ones `cfg` configures: the tab list, and no output
/// of another widget.
pub open spec fn widgets_for(w: Widgets, cfg: Map<Seq<char>, Seq<char>>) -> bool {
    &&& w.tabs matches Some(t) && t.configured_by(cfg)
    &&& w.outputs@ == Map::<Seq<char>, Seq<char>>::empty()
}

/// The widgets `configuration` configures.
pub fn register_widgets(configuration: &Config) -> (res: Widgets)
    ensures
        widgets_for(res, configuration@),
{
    Widgets { tabs: Some(TabsWidget::new(configuration)), outputs: Config::new() }
}

/// The bar instance.
pub struct Plugin {
    /// Events that came before the permissions were granted.
    pub pending_events: Vec<Event>,
    pub got_permissions: bool,
    pub state: ZellijState,
    /// The configuration as the host gave it.
    pub userspace_configuration: Config,
    pub module_config: ModuleConfig,
    pub widgets: Widgets,
    /// Why the configuration was refused.
    pub err: Option<ConfigError>,
    pub role: Role,
    /// The width a view was last drawn at.
    pub view_width: Option<usize>,
    /// The frame a view last received.
    pub view_frame: String,
    /// The views a controller renders for.
    pub views: ViewTable,
}

/// The state every bar starts from.
pub open spec fn initial_state(st: ZellijState) -> bool {
    &&& st.cols == 0
    &&& st.tab_width_limit is None
    &&& st.mode.mode == InputMode::Normal
    &&& st.mode.details@.len() == 0
    &&& st.panes.panes@.len() == 0
    &&& st.tabs@.len() == 0
    &&& st.pipe_results@ == Map::<Seq<char>, Seq<char>>::empty()
    &&& st.cache_mask == 0
}

/// `p` with the state `st`.
pub open spec fn with_state(p: Plugin, st: ZellijState) -> Plugin {
    Plugin { state: st, ..p }
}

/// Why the bar cannot be drawn for `p`'s state.
pub open spec fn draw_failure(p: Plugin) -> Seq<char> {
    if p.module_config.uses_tabs() && !p.widgets.ready(p.state) {
        "no active tab"@
    } else {
        "format_precedence names fewer than three sections"@
    }
}

/// What a controller sends for `cols` columns: the error, or the bar drawn
/// at that width; nothing when the bar cannot be drawn.
pub open spec fn frame_spec(p: Plugin, cols: usize) -> Option<Seq<char>> {
    match p.err {
        Some(e) => Some("Error: "@ + error_message(e)),
        None => {
            let st = ZellijState { cols, ..p.state };
            if p.module_config.unconfigured() || p.module_config.drawable(p.widgets, st) {
                Some(p.module_config.bar_spec(p.widgets, st))
            } else {
                None
            }
        },
    }
}

/// The state's width after a frame for `cols` columns was drawn.
pub open spec fn cols_after_frame(p: Plugin, cols: usize) -> usize {
    if p.err is None {
        cols
    } else {
        p.state.cols
    }
}

/// The message that carries the frame for `cols` columns to view `id`.
pub open spec fn frame_effect(p: Plugin, id: u32, cols: usize) -> EffectView {
    match frame_spec(p, cols) {
        Some(f) => EffectView::Message(view_frame_pipe(), Some(id), Some(f)),
        None => EffectView::Fail(draw_failure(p)),
    }
}

/// The frames sent to the views `es`, in order.
pub open spec fn publish_effects(p: Plugin, es: Seq<(u32, usize)>) -> Seq<EffectView> {
    es.map_values(|e: (u32, usize)| frame_effect(p, e.0, e.1))
}

/// The state's width after frames were drawn for the views `es`: a width
/// already drawn is not drawn again.
pub open spec fn cols_after(es: Seq<(u32, usize)>, cur: usize) -> usize
    decreases es.len(),
{
    if es.len() == 0 {
        cur
    } else if exists|k: int| 0 <= k < es.len() - 1 && #[trigger] es[k].1 == es.last().1 {
        cols_after(es.drop_last(), cur)
    } else {
        es.last().1
    }
}

/// `p` after frames were sent to all its views.
pub open spec fn published(p: Plugin) -> Plugin {
    if p.err is None {
        with_state(p, ZellijState { cols: cols_after(ordered(p.views@), p.state.cols), ..p.state })
    } else {
        p
    }
}

/// The request a view sends for a frame of its width.
pub open spec fn frame_request(width: Option<usize>) -> Seq<EffectView> {
    match width {
        Some(w) => seq![
            EffectView::Message(
                view_request_pipe(),
                None,
                Some(encode_spec(ViewRequest::Width(w))),
            ),
        ],
        None => seq![],
    }
}

/// What a mouse event does: a click on a tab switches to it, a click on
/// another widget is handed to it.
pub open spec fn mouse_effects(p: Plugin, mouse: Mouse) -> Seq<EffectView> {
    if mouse is LeftClick || mouse is RightClick {
        if p.module_config.drawable(p.widgets, p.state) {
            match p.module_config.mouse_spec(p.widgets, p.state, mouse) {
                Some((Some(tab), _, _)) => seq![EffectView::SwitchTab(tab)],
                Some((None, name, col)) => seq![EffectView::WidgetClick(name, col)],
                None => seq![],
            }
        } else {
            seq![EffectView::Fail(draw_failure(p))]
        }
    } else {
        seq![]
    }
}

/// `b` is `a` after the host switched to the palette for `mode`, and `r`
/// says whether the bar is drawn again: only a configuration that chose a
/// palette follows the host.
pub open spec fn theme_applied(a: Plugin, mode: HostTerminalThemeMode, b: Plugin, r: bool) -> bool {
    match configured_mode_spec(a.userspace_configuration@) {
        None => b == a && !r,
        Some(_) => {
            let cfg = themed_spec(a.userspace_configuration@, mode);
            &&& r
            &&& match precedence_error(cfg) {
                Some(m) => {
                    &&& b == Plugin { err: b.err, ..a }
                    &&& b.err matches Some(ConfigError::InvalidFormatPrecedence(x)) && x@ == m
                },
                None => {
                    &&& b == Plugin {
                        module_config: b.module_config,
                        widgets: b.widgets,
                        err: None,
                        ..a
                    }
                    &&& b.module_config.configured_by(cfg)
                    &&& widgets_for(b.widgets, cfg)
                },
            }
        },
    }
}

/// `b` is `a` after the event `e`; `r` says whether the bar is drawn again
/// and `eff` is what the bar asks of the host.
pub open spec fn handled(a: Plugin, e: Event, b: Plugin, r: bool, eff: Seq<EffectView>) -> bool {
    match e {
        Event::Mouse(m) => b == a && !r && eff == mouse_effects(a, m),
        Event::ModeUpdate(mi) => {
            &&& b == with_state(
                a,
                ZellijState { mode: mi, cache_mask: UpdateEventMask::Mode.spec_bits(), ..a.state },
            )
            &&& r == (mode_view(a.state.mode) != mode_view(mi))
            &&& eff.len() == 0
        },
        Event::PaneUpdate(pm) => {
            &&& b == Plugin {
                views: b.views,
                state: ZellijState {
                    panes: pm,
                    cache_mask: UpdateEventMask::Tab.spec_bits(),
                    ..a.state
                },
                ..a
            }
            &&& b.views@ == (if a.role == Role::Controller {
                live_views(a.views@, pm)
            } else {
                a.views@
            })
            &&& r == (manifest_view(a.state.panes) != manifest_view(pm))
            &&& eff.len() == 0
        },
        Event::PermissionRequestResult(granted) => {
            &&& b == a
            &&& !r
            &&& eff == seq![EffectView::SetSelectable(false)] + (if granted && a.role
                == Role::Controller {
                seq![EffectView::Message(controller_ready_pipe(), None, None)]
            } else {
                seq![]
            })
        },
        Event::TabUpdate(ts) => {
            &&& b == with_state(
                a,
                ZellijState { tabs: ts, cache_mask: UpdateEventMask::Tab.spec_bits(), ..a.state },
            )
            &&& r == (tabs_view(a.state.tabs@) != tabs_view(ts@))
            &&& eff.len() == 0
        },
        Event::Timer => {
            &&& b == with_state(a, ZellijState { cache_mask: 0, ..a.state })
            &&& r
            &&& eff == seq![EffectView::ScheduleRefresh]
        },
        Event::HostTerminalThemeChanged(mode) => theme_applied(a, mode, b, r) && eff.len() == 0,
        _ => b == a && !r && eff.len() == 0,
    }
}

/// The message a view sends for a click.
pub open spec fn click_request(m: Mouse) -> Seq<EffectView> {
    match m {
        Mouse::LeftClick(l, c) => seq![
            EffectView::Message(
                view_request_pipe(),
                None,
                Some(encode_spec(ViewRequest::LeftClick(l, c))),
            ),
        ],
        Mouse::RightClick(l, c) => seq![
            EffectView::Message(
                view_request_pipe(),
                None,
                Some(encode_spec(ViewRequest::RightClick(l, c))),
            ),
        ],
        _ => seq![],
    }
}

/// `b` is the view `a` after the event `e`: a view only learns whether it
/// may ask for frames, and passes clicks on to the controller.
pub open spec fn view_updated(a: Plugin, e: Event, b: Plugin, r: bool, eff: Seq<EffectView>) -> bool {
    match e {
        Event::PermissionRequestResult(granted) => {
            &&& b == Plugin { got_permissions: granted, ..a }
            &&& r
            &&& eff == (if granted {
                frame_request(a.view_width)
            } else {
                seq![]
            })
        },
        Event::Mouse(m) => {
            &&& b == a
            &&& !r
            &&& eff == (if a.got_permissions {
                click_request(m)
            } else {
                seq![]
            })
        },
        _ => b == a && !r && eff.len() == 0,
    }
}

/// The states `ps` a bar passes through from `a` while the events `es` are
/// handled one after the other, with what each handling returned.
pub open spec fn replay_trace(
    a: Plugin,
    es: Seq<Event>,
    ps: Seq<Plugin>,
    rs: Seq<bool>,
    effs: Seq<Seq<EffectView>>,
) -> bool {
    &&& ps.len() == es.len() + 1
    &&& rs.len() == es.len()
    &&& effs.len() == es.len()
    &&& ps[0] == a
    &&& forall|i: int|
        0 <= i < es.len() ==> #[trigger] handled(ps[i], es[i], ps[i + 1], rs[i], effs[i])
}

/// `b` is `a` after the events `es` were handled one after the other; the
/// bar is drawn again if one of them asked for it, and the effects come in
/// the order of the events.
pub open spec fn replayed(a: Plugin, es: Seq<Event>, b: Plugin, r: bool, eff: Seq<EffectView>) -> bool {
    exists|ps: Seq<Plugin>, rs: Seq<bool>, effs: Seq<Seq<EffectView>>|
        #[trigger] replay_trace(a, es, ps, rs, effs) && ps.last() == b && r == rs.contains(true)
            && eff == effs.flatten()
}

/// `b` is `a` after the event `e` reached a bar that is not a view: before
/// the permissions are granted events wait; the grant handles those that
/// waited, then itself.
pub open spec fn absorbed(a: Plugin, e: Event, b: Plugin, r: bool, eff: Seq<EffectView>) -> bool {
    if e matches Event::PermissionRequestResult(true) {
        &&& b.pending_events@.len() == 0
        &&& replayed(
            Plugin { got_permissions: true, pending_events: b.pending_events, ..a },
            a.pending_events@.push(e),
            b,
            r,
            eff,
        )
    } else if !a.got_permissions {
        &&& b == Plugin { pending_events: b.pending_events, ..a }
        &&& b.pending_events@ == a.pending_events@.push(e)
        &&& !r
        &&& eff.len() == 0
    } else {
        handled(a, e, b, r, eff)
    }
}

/// `b` is `a` after the event `e`; a controller sends frames to its views
/// in place of drawing itself.
pub open spec fn updated(a: Plugin, e: Event, b: Plugin, r: bool, eff: Seq<EffectView>) -> bool {
    if a.role == Role::View {
        view_updated(a, e, b, r, eff)
    } else {
        exists|m: Plugin, r0: bool, e0: Seq<EffectView>|
            #[trigger] absorbed(a, e, m, r0, e0) && if a.role == Role::Controller {
                &&& !r
                &&& if m.got_permissions && r0 {
                    b == published(m) && eff == e0 + publish_effects(m, ordered(m.views@))
                } else {
                    b == m && eff == e0
                }
            } else {
                b == m && r == r0 && eff == e0
            }
    }
}

/// `b` is `a` after a click that view `id` passed on: the bar is laid out
/// at that view's width and the click handled there.
pub open spec fn clicked_for(a: Plugin, id: u32, mouse: Mouse, b: Plugin, eff: Seq<EffectView>) -> bool {
    if a.views@.contains_key(id) {
        let a2 = with_state(a, ZellijState { cols: a.views@[id], ..a.state });
        b == a2 && eff == mouse_effects(a2, mouse)
    } else {
        b == a && eff.len() == 0
    }
}

/// `b` is the controller `a` after a message from a view: a width is
/// recorded and answered with a frame once the permissions were granted, a
/// click is handled at the view's width.
pub open spec fn view_request_handled(
    a: Plugin,
    src: PipeSource,
    payload: Option<Seq<char>>,
    b: Plugin,
    eff: Seq<EffectView>,
) -> bool {
    let req = match payload {
        Some(raw) => view_request_spec(raw),
        None => None,
    };
    match src {
        PipeSource::Plugin(id) => match req {
            Some(ViewRequest::Width(cols)) => {
                &&& b.views@ == a.views@.insert(id, cols)
                &&& if a.got_permissions {
                    &&& b == Plugin {
                        views: b.views,
                        state: ZellijState { cols: cols_after_frame(a, cols), ..a.state },
                        ..a
                    }
                    &&& eff == seq![frame_effect(a, id, cols)]
                } else {
                    &&& b == Plugin { views: b.views, ..a }
                    &&& eff.len() == 0
                }
            },
            Some(ViewRequest::LeftClick(line, col)) => clicked_for(
                a,
                id,
                Mouse::LeftClick(line, col),
                b,
                eff,
            ),
            Some(ViewRequest::RightClick(line, col)) => clicked_for(
                a,
                id,
                Mouse::RightClick(line, col),
                b,
                eff,
            ),
            None => b == a && eff.len() == 0,
        },
        _ => b == a && eff.len() == 0,
    }
}

/// `b` is `a` after the message `name` with `payload` came from `src`: a
/// view takes frames and the controller's call to ask for one, a controller
/// answers its views; other messages change nothing here.
pub open spec fn piped(
    a: Plugin,
    name: Seq<char>,
    src: PipeSource,
    payload: Option<Seq<char>>,
    b: Plugin,
    r: bool,
    eff: Seq<EffectView>,
) -> bool {
    if a.role == Role::View {
        if name == view_frame_pipe() {
            match payload {
                Some(f) => {
                    &&& b == Plugin { view_frame: b.view_frame, ..a }
                    &&& b.view_frame@ == f
                    &&& r
                    &&& eff.len() == 0
                },
                None => b == a && !r && eff.len() == 0,
            }
        } else if name == controller_ready_pipe() && a.got_permissions {
            b == a && !r && eff == frame_request(a.view_width)
        } else {
            b == a && !r && eff.len() == 0
        }
    } else if a.role == Role::Controller && name == view_request_pipe() {
        !r && view_request_handled(a, src, payload, b, eff)
    } else {
        b == a && !r && eff.len() == 0
    }
}

/// `b` is `a` after the host asked it to draw itself `cols` columns wide,
/// and `eff` what it drew.
pub open spec fn rendered(a: Plugin, cols: usize, b: Plugin, eff: Seq<EffectView>) -> bool {
    if a.role == Role::Controller {
        b == a && eff.len() == 0
    } else if a.role == Role::View {
        if a.view_width != Some(cols) {
            &&& b == Plugin { view_width: Some(cols), view_frame: b.view_frame, ..a }
            &&& b.view_frame@.len() == 0
            &&& eff == (if a.got_permissions {
                frame_request(Some(cols))
            } else {
                seq![]
            }) + seq![EffectView::Print(waiting_text())]
        } else {
            &&& b == a
            &&& eff == seq![
                EffectView::Print(
                    if a.view_frame@.len() == 0 {
                        waiting_text()
                    } else {
                        a.view_frame@
                    },
                ),
            ]
        }
    } else if !a.got_permissions {
        b == a && eff.len() == 0
    } else {
        match a.err {
            Some(e) => b == a && eff == seq![
                EffectView::Print("Error: "@ + error_message(e) + seq!['\n']),
            ],
            None => {
                &&& b == with_state(a, ZellijState { cols, ..a.state })
                &&& eff == seq![
                    match frame_spec(a, cols) {
                        Some(f) => EffectView::Print(f),
                        None => EffectView::Fail(draw_failure(a)),
                    },
                ]
            },
        }
    }
}

/// The configuration in force: the palette the configuration chose, if it
/// chose one.
pub open spec fn active_configuration(cfg: Map<Seq<char>, Seq<char>>) -> Map<Seq<char>, Seq<char>> {
    match configured_mode_spec(cfg) {
        Some(m) => themed_spec(cfg, m),
        None => cfg,
    }
}

/// The permissions a bar with this role asks for.
pub open spec fn load_permissions(role: Role) -> Seq<Permission> {
    if role == Role::Standalone {
        seq![
            Permission::ReadApplicationState,
            Permission::ChangeApplicationState,
            Permission::RunCommands,
        ]
    } else {
        seq![
            Permission::ReadApplicationState,
            Permission::ChangeApplicationState,
            Permission::RunCommands,
            Permission::MessageAndLaunchOtherPlugins,
        ]
    }
}

/// The events a bar that draws itself or renders for views listens to.
pub open spec fn all_events() -> Seq<EventKind> {
    seq![
        EventKind::Mouse,
        EventKind::ModeUpdate,
        EventKind::PaneUpdate,
        EventKind::PermissionRequestResult,
        EventKind::Timer,
        EventKind::TabUpdate,
        EventKind::SessionUpdate,
        EventKind::RunCommandResult,
        EventKind::HostTerminalThemeChanged,
    ]
}

/// `b` is `a` after loading the configuration `cfg`; a configuration whose
/// precedence is refused leaves the error and changes nothing else.
pub open spec fn loaded(a: Plugin, cfg: Map<Seq<char>, Seq<char>>, b: Plugin, eff: Seq<EffectView>) -> bool {
    let role = role_spec(cfg);
    if role == Role::View {
        &&& b == Plugin {
            role,
            got_permissions: false,
            view_width: None,
            view_frame: b.view_frame,
            ..a
        }
        &&& b.view_frame@.len() == 0
        &&& eff == seq![
            EffectView::RequestPermissions(load_permissions(role)),
            EffectView::Subscribe(seq![EventKind::Mouse, EventKind::PermissionRequestResult]),
        ]
    } else {
        let active = active_configuration(cfg);
        &&& eff == seq![
            EffectView::RequestPermissions(load_permissions(role)),
            EffectView::Subscribe(all_events()),
            EffectView::ScheduleRefresh,
        ]
        &&& match precedence_error(active) {
            Some(m) => {
                &&& b == Plugin { role, err: b.err, ..a }
                &&& b.err matches Some(ConfigError::InvalidFormatPrecedence(x)) && x@ == m
            },
            None => {
                &&& b == Plugin {
                    role,
                    module_config: b.module_config,
                    widgets: b.widgets,
                    userspace_configuration: b.userspace_configuration,
                    pending_events: b.pending_events,
                    got_permissions: false,
                    views: b.views,
                    state: b.state,
                    ..a
                }
                &&& b.module_config.configured_by(active)
                &&& widgets_for(b.widgets, active)
                &&& b.userspace_configuration@ == cfg
                &&& b.pending_events@.len() == 0
                &&& b.views@ == Map::<u32, usize>::empty()
                &&& initial_state(b.state)
            },
        }
    }
}

/// One more event handled at the end of a replay extends its trace.
proof fn lemma_trace_step(
    a: Plugin,
    es: Seq<Event>,
    ps: Seq<Plugin>,
    rs: Seq<bool>,
    effs: Seq<Seq<EffectView>>,
    e: Event,
    b: Plugin,
    r: bool,
    eff: Seq<EffectView>,
)
    requires
        replay_trace(a, es, ps, rs, effs),
        handled(ps.last(), e, b, r, eff),
    ensures
        replay_trace(a, es.push(e), ps.push(b), rs.push(r), effs.push(eff)),
        rs.push(r).contains(true) == (rs.contains(true) || r),
        effs.push(eff).flatten() == effs.flatten() + eff,
{
    let es2 = es.push(e);
    let ps2 = ps.push(b);
    let rs2 = rs.push(r);
    let effs2 = effs.push(eff);
    assert forall|i: int| 0 <= i < es2.len() implies #[trigger] handled(
        ps2[i],
        es2[i],
        ps2[i + 1],
        rs2[i],
        effs2[i],
    ) by {
        if i < es.len() {
            assert(handled(ps[i], es[i], ps[i + 1], rs[i], effs[i]));
            assert(ps2[i] == ps[i] && ps2[i + 1] == ps[i + 1] && es2[i] == es[i] && rs2[i] == rs[i]
                && effs2[i] == effs[i]);
        } else {
            assert(ps2[i] == ps.last() && ps2[i + 1] == b && es2[i] == e && rs2[i] == r && effs2[i]
                == eff);
        }
    }
    if rs.contains(true) {
        let k = choose|k: int| 0 <= k < rs.len() && rs[k] == true;
        assert(rs2[k] == true);
    }
    if r {
        assert(rs2[rs.len() as int] == true);
    }
    if rs2.contains(true) {
        let k = choose|k: int| 0 <= k < rs2.len() && rs2[k] == true;
        if k < rs.len() {
            assert(rs[k] == true);
        }
    }
    effs.lemma_flatten_push(eff);
}

/// What a view asks for reaches its controller as asked: a width in range
/// is recorded for that view and, once the controller may render, answered
/// with the frame for that width; a click is handled at the width the view
/// last recorded.
pub proof fn lemma_view_request_reaches_controller(
    c: Plugin,
    id: u32,
    req: ViewRequest,
    b: Plugin,
    eff: Seq<EffectView>,
)
    requires
        sendable(req),
        view_request_handled(c, PipeSource::Plugin(id), Some(encode_spec(req)), b, eff),
    ensures
        match req {
            ViewRequest::Width(w) => {
                &&& b.views@ == c.views@.insert(id, w)
                &&& c.got_permissions ==> eff == seq![frame_effect(c, id, w)]
                &&& !c.got_permissions ==> eff.len() == 0
            },
            ViewRequest::LeftClick(line, col) => clicked_for(c, id, Mouse::LeftClick(line, col), b, eff),
            ViewRequest::RightClick(line, col) => clicked_for(
                c,
                id,
                Mouse::RightClick(line, col),
                b,
                eff,
            ),
        },
{
    lemma_request_roundtrip(req);
}


impl Plugin {
    /// A bar with nothing loaded.
    pub fn new() -> (res: Plugin)
        ensures
            res.pending_events@.len() == 0,
            !res.got_permissions,
            initial_state(res.state),
            res.userspace_configuration@ == Map::<Seq<char>, Seq<char>>::empty(),
            res.module_config.unconfigured(),
            res.module_config.left_parts_config@.len() == 0,
            res.module_config.center_parts_config@.len() == 0,
            res.module_config.right_parts_config@.len() == 0,
            res.module_config.right_separator@.len() == 0,
            res.module_config.format_space@ == (PartView { style: plain_style(), content: seq![] }),
            !res.module_config.hide_frame_for_single_pane,
            !res.module_config.hide_frame_except_for_search,
            !res.module_config.hide_frame_except_for_fullscreen,
            !res.module_config.hide_frame_except_for_scroll,
            res.module_config.format_precedence@.len() == 0,
            !res.module_config.hide_on_overlength,
            res.widgets.tabs is None,
            res.widgets.outputs@ == Map::<Seq<char>, Seq<char>>::empty(),
            res.err is None,
            res.role == Role::Standalone,
            res.view_width is None,
            res.view_frame@.len() == 0,
            res.views@ == Map::<u32, usize>::empty(),
    {
        Plugin {
            pending_events: Vec::new(),
            got_permissions: false,
            state: ZellijState::default(),
            userspace_configuration: Config::new(),
            module_config: ModuleConfig::default(),
            widgets: Widgets { tabs: None, outputs: Config::new() },
            err: None,
            role: Role::Standalone,
            view_width: None,
            view_frame: String::new(),
            views: ViewTable::new(),
        }
    }

    fn failure(&self) -> (res: String)
        ensures
            res@ == draw_failure(*self),
    {
        if self.module_config.tabs_used() && !self.widgets.is_ready(&self.state) {
            text("no active tab")
        } else {
            text("format_precedence names fewer than three sections")
        }
    }

    /// The frame for `cols` columns; the state keeps that width unless the
    /// configuration was refused.
    pub fn render_frame(&mut self, cols: usize) -> (res: Option<String>)
        ensures
            opt_view(res) == frame_spec(*old(self), cols),
            *final(self) == (if old(self).err is None {
                with_state(*old(self), ZellijState { cols, ..old(self).state })
            } else {
                *old(self)
            }),
    {
        if let Some(err) = &self.err {
            let mut t = chars_of("Error: ");
            let m = chars_of(err.message().as_str());
            crate::text::append_chars(&mut t, &m);
            return Some(string_of(&t));
        }
        self.state.cols = cols;
        if self.module_config.left_parts.len() == 0 && self.module_config.center_parts.len() == 0
            && self.module_config.right_parts.len() == 0
            && self.module_config.right_segments.is_none() || self.module_config.can_draw(
            &self.widgets,
            &self.state,
        ) {
            Some(self.module_config.render_bar_on(&mut self.state, &self.widgets))
        } else {
            None
        }
    }

    /// Sends the frame for `cols` columns to view `id`.
    pub fn publish_view(&mut self, id: u32, cols: usize, effects: &mut Vec<Effect>)
        ensures
            effects_view(final(effects)@) == effects_view(old(effects)@).push(
                frame_effect(*old(self), id, cols),
            ),
            *final(self) == (if old(self).err is None {
                with_state(*old(self), ZellijState { cols, ..old(self).state })
            } else {
                *old(self)
            }),
    {
        let ghost p = *self;
        let e = match self.render_frame(cols) {
            Some(f) => Effect::Message {
                name: text("zjstatus.view_frame.v1"),
                destination: Some(id),
                payload: Some(f),
            },
            None => Effect::Fail(self.failure()),
        };
        assert(draw_failure(*self) == draw_failure(p));
        push_effect(effects, e);
    }

    /// Sends every view the frame for its width, drawing each width once.
    pub fn publish_views(&mut self, effects: &mut Vec<Effect>)
        ensures
            effects_view(final(effects)@) == effects_view(old(effects)@) + publish_effects(
                *old(self),
                ordered(old(self).views@),
            ),
            *final(self) == published(*old(self)),
    {
        let ghost p = *self;
        let entries = self.views.entries();
        let ghost es = entries@;
        let ghost start = effects_view(effects@);
        let mut frames: Vec<Option<String>> = Vec::new();
        let mut i: usize = 0;
        let n = entries.len();
        while i < n
            invariant
                n == es.len(),
                i <= n,
                es == ordered(p.views@),
                es == entries@,
                frames@.len() == i,
                forall|k: int| 0 <= k < i ==> opt_view(#[trigger] frames@[k]) == frame_spec(p, es[k].1),
                *self == (if p.err is None {
                    with_state(p, ZellijState { cols: cols_after(es.take(i as int), p.state.cols), ..p.state })
                } else {
                    p
                }),
                effects_view(effects@) == start + publish_effects(p, es.take(i as int)),
            decreases n - i,
        {
            let (id, cols) = entries[i];
            let mut found: Option<usize> = None;
            let mut k: usize = 0;
            while k < i
                invariant
                    i < n,
                    n == es.len(),
                    k <= i,
                    es == entries@,
                    cols == es[i as int].1,
                    found matches Some(j) ==> j < i && es[j as int].1 == cols,
                    found is None ==> forall|j: int| 0 <= j < k ==> (#[trigger] es[j]).1 != cols,
                decreases i - k,
            {
                if found.is_none() && entries[k].1 == cols {
                    found = Some(k);
                }
                k += 1;
            }
            let ghost before = *self;
            let frame = match found {
                Some(j) => match &frames[j] {
                    Some(f) => Some(text(f.as_str())),
                    None => None,
                },
                None => self.render_frame(cols),
            };
            assert(frame_spec(before, cols) == frame_spec(p, cols));
            assert(draw_failure(*self) == draw_failure(p));
            let e = match &frame {
                Some(f) => Effect::Message {
                    name: text("zjstatus.view_frame.v1"),
                    destination: Some(id),
                    payload: Some(text(f.as_str())),
                },
                None => Effect::Fail(self.failure()),
            };
            push_effect(effects, e);
            frames.push(frame);
            proof {
                let t = es.take(i + 1);
                assert(t.drop_last() =~= es.take(i as int));
                assert(t.last() == es[i as int]);
                if found is None {
                    assert(!(exists|k: int| 0 <= k < t.len() - 1 && #[trigger] t[k].1 == t.last().1)) by {
                        assert forall|k: int| 0 <= k < t.len() - 1 implies t[k].1 != t.last().1 by {
                            assert(t[k] == es[k]);
                        }
                    }
                } else {
                    let j = found->0;
                    assert(t[j as int] == es[j as int]);
                }
                assert(publish_effects(p, t) =~= publish_effects(p, es.take(i as int)).push(
                    frame_effect(p, id, cols),
                ));
                assert forall|k: int| 0 <= k < i + 1 implies opt_view(#[trigger] frames@[k])
                    == frame_spec(p, es[k].1) by {
                }
            }
            i += 1;
        }
        assert(es.take(n as int) =~= es);
    }

    /// Handles a mouse event on the bar.
    pub fn click(&mut self, mouse: Mouse, effects: &mut Vec<Effect>)
        ensures
            effects_view(final(effects)@) == effects_view(old(effects)@) + mouse_effects(
                *old(self),
                mouse,
            ),
            *final(self) == *old(self),
    {
        let ghost e0 = effects_view(effects@);
        let is_click = match mouse {
            Mouse::LeftClick(_, _) | Mouse::RightClick(_, _) => true,
            _ => false,
        };
        if !is_click {
            assert(effects_view(effects@) =~= e0 + mouse_effects(*self, mouse));
            return;
        }
        if !self.module_config.can_draw(&self.widgets, &self.state) {
            let f = self.failure();
            push_effect(effects, Effect::Fail(f));
            assert(effects_view(effects@) =~= e0 + mouse_effects(*self, mouse));
            return;
        }
        let action = self.module_config.handle_mouse_action_on(&mut self.state, mouse, &self.widgets);
        match action {
            ClickAction::SwitchTab(t) => push_effect(effects, Effect::SwitchTab(t)),
            ClickAction::Widget(name, col) => push_effect(effects, Effect::WidgetClick(name, col)),
            ClickAction::Nothing => {},
        }
        assert(effects_view(effects@) =~= e0 + mouse_effects(*old(self), mouse));
    }

    /// Follows the host to the palette for `mode`, when the configuration
    /// chose one; says whether the bar is drawn again.
    pub fn apply_host_theme(&mut self, mode: HostTerminalThemeMode) -> (res: bool)
        ensures
            theme_applied(*old(self), mode, *final(self), res),
    {
        if configured_host_theme_mode(&self.userspace_configuration).is_none() {
            return false;
        }
        let configuration = host_theme_configuration(&self.userspace_configuration, mode);
        match ModuleConfig::new(&configuration) {
            Ok(module_config) => {
                self.module_config = module_config;
                self.widgets = register_widgets(&configuration);
                self.err = None;
            },
            Err(error) => {
                self.err = Some(error);
            },
        }
        true
    }

    /// Handles an event once the permissions were granted; says whether the
    /// bar is drawn again.
    pub fn handle_event(&mut self, event: Event, effects: &mut Vec<Effect>) -> (res: bool)
        ensures
            exists|eff: Seq<EffectView>|
                handled(*old(self), event, *final(self), res, eff) && effects_view(final(effects)@)
                    == effects_view(old(effects)@) + eff,
    {
        let ghost a = *self;
        let ghost e0 = effects_view(effects@);
        let ghost ev = event;
        match event {
            Event::Mouse(mouse_info) => {
                self.click(mouse_info, effects);
                assert(handled(a, ev, *self, false, mouse_effects(a, mouse_info)));
                false
            },
            Event::ModeUpdate(mode_info) => {
                let should_render = !same_mode(&self.state.mode, &mode_info);
                self.state.mode = mode_info;
                self.state.cache_mask = UpdateEventMask::Mode.bits();
                assert(effects_view(effects@) =~= e0 + seq![]);
                assert(handled(a, ev, *self, should_render, seq![]));
                should_render
            },
            Event::PaneUpdate(pane_info) => {
                if self.role == Role::Controller {
                    self.views.retain_live(&pane_info);
                }
                let should_render = !same_manifest(&self.state.panes, &pane_info);
                self.state.panes = pane_info;
                self.state.cache_mask = UpdateEventMask::Tab.bits();
                assert(effects_view(effects@) =~= e0 + seq![]);
                assert(handled(a, ev, *self, should_render, seq![]));
                should_render
            },
            Event::PermissionRequestResult(granted) => {
                push_effect(effects, Effect::SetSelectable(false));
                if granted && self.role == Role::Controller {
                    push_effect(
                        effects,
                        Effect::Message {
                            name: text("zjstatus.controller_ready.v1"),
                            destination: None,
                            payload: None,
                        },
                    );
                }
                let ghost eff = seq![EffectView::SetSelectable(false)] + (if granted && a.role
                    == Role::Controller {
                    seq![EffectView::Message(controller_ready_pipe(), None, None)]
                } else {
                    seq![]
                });
                assert(effects_view(effects@) =~= e0 + eff);
                assert(handled(a, ev, *self, false, eff));
                false
            },
            Event::TabUpdate(tab_info) => {
                let should_render = !same_tabs(&self.state.tabs, &tab_info);
                self.state.tabs = tab_info;
                self.state.cache_mask = UpdateEventMask::Tab.bits();
                assert(effects_view(effects@) =~= e0 + seq![]);
                assert(handled(a, ev, *self, should_render, seq![]));
                should_render
            },
            Event::Timer => {
                push_effect(effects, Effect::ScheduleRefresh);
                self.state.cache_mask = 0;
                assert(effects_view(effects@) =~= e0 + seq![EffectView::ScheduleRefresh]);
                assert(handled(a, ev, *self, true, seq![EffectView::ScheduleRefresh]));
                true
            },
            Event::HostTerminalThemeChanged(mode) => {
                let should_render = self.apply_host_theme(mode);
                assert(effects_view(effects@) =~= e0 + seq![]);
                assert(handled(a, ev, *self, should_render, seq![]));
                should_render
            },
            _ => {
                assert(effects_view(effects@) =~= e0 + seq![]);
                assert(handled(a, ev, *self, false, seq![]));
                false
            },
        }
    }

    /// Handles an event reaching a view.
    pub fn update_view(&mut self, event: Event, effects: &mut Vec<Effect>) -> (res: bool)
        ensures
            exists|eff: Seq<EffectView>|
                view_updated(*old(self), event, *final(self), res, eff) && effects_view(
                    final(effects)@,
                ) == effects_view(old(effects)@) + eff,
    {
        let ghost a = *self;
        let ghost e0 = effects_view(effects@);
        let ghost ev = event;
        match event {
            Event::PermissionRequestResult(granted) => {
                self.got_permissions = granted;
                if granted {
                    self.request_frame(effects);
                }
                let ghost eff = if granted {
                    frame_request(a.view_width)
                } else {
                    seq![]
                };
                assert(effects_view(effects@) =~= e0 + eff);
                assert(view_updated(a, ev, *self, true, eff));
                true
            },
            Event::Mouse(mouse) => {
                if self.got_permissions {
                    match mouse {
                        Mouse::LeftClick(line, col) => {
                            let payload = ViewRequest::LeftClick(line, col).encode();
                            push_effect(
                                effects,
                                Effect::Message {
                                    name: text("zjstatus.view_request.v1"),
                                    destination: None,
                                    payload: Some(payload),
                                },
                            );
                        },
                        Mouse::RightClick(line, col) => {
                            let payload = ViewRequest::RightClick(line, col).encode();
                            push_effect(
                                effects,
                                Effect::Message {
                                    name: text("zjstatus.view_request.v1"),
                                    destination: None,
                                    payload: Some(payload),
                                },
                            );
                        },
                        _ => {},
                    }
                }
                let ghost eff = if a.got_permissions {
                    click_request(mouse)
                } else {
                    seq![]
                };
                assert(effects_view(effects@) =~= e0 + eff);
                assert(view_updated(a, ev, *self, false, eff));
                false
            },
            _ => {
                assert(effects_view(effects@) =~= e0 + seq![]);
                assert(view_updated(a, ev, *self, false, seq![]));
                false
            },
        }
    }

    /// Takes an event in a bar that is not a view; says whether the bar is
    /// drawn again.
    pub fn absorb(&mut self, event: Event, effects: &mut Vec<Effect>) -> (res: bool)
        ensures
            exists|eff: Seq<EffectView>|
                absorbed(*old(self), event, *final(self), res, eff) && effects_view(final(effects)@)
                    == effects_view(old(effects)@) + eff,
    {
        let ghost a = *self;
        let ghost e0 = effects_view(effects@);
        let granted = match &event {
            Event::PermissionRequestResult(g) => *g,
            _ => false,
        };
        if granted {
            self.got_permissions = true;
            let mut pending: Vec<Event> = Vec::new();
            std::mem::swap(&mut pending, &mut self.pending_events);
            pending.push(event);
            let total = pending.len();
            let ghost es = pending@;
            let ghost start = *self;
            let ghost mut ps: Seq<Plugin> = seq![start];
            let ghost mut rs: Seq<bool> = seq![];
            let ghost mut effs: Seq<Seq<EffectView>> = seq![];
            let mut should_render = false;
            let mut i: usize = 0;
            proof {
                assert(es.take(0) =~= Seq::<Event>::empty());
                assert(effs.flatten() =~= Seq::<EffectView>::empty());
                assert(effects_view(effects@) =~= e0 + effs.flatten());
            }
            while pending.len() > 0
                invariant
                    i <= es.len(),
                    es.len() == total,
                    pending@ == es.skip(i as int),
                    self.pending_events@.len() == 0,
                    start.pending_events == self.pending_events,
                    replay_trace(start, es.take(i as int), ps, rs, effs),
                    ps.last() == *self,
                    should_render == rs.contains(true),
                    effects_view(effects@) == e0 + effs.flatten(),
                decreases pending.len(),
            {
                let ghost m = *self;
                let ghost acc1 = effs.flatten();
                let ev = pending.remove(0);
                assert(es.skip(i as int)[0] == es[i as int]);
                assert(pending@ =~= es.skip(i + 1));
                let r2 = self.handle_event(ev, effects);
                let ghost e2 = choose|x: Seq<EffectView>|
                    handled(m, ev, *self, r2, x) && effects_view(effects@) == e0 + acc1 + x;
                proof {
                    lemma_trace_step(start, es.take(i as int), ps, rs, effs, ev, *self, r2, e2);
                    assert(es.take(i as int).push(ev) =~= es.take(i + 1));
                    ps = ps.push(*self);
                    rs = rs.push(r2);
                    effs = effs.push(e2);
                    assert(effects_view(effects@) =~= e0 + effs.flatten());
                }
                should_render = should_render || r2;
                i += 1;
            }
            proof {
                assert(es.take(i as int) =~= es);
                assert(Plugin { got_permissions: true, pending_events: self.pending_events, ..a }
                    == start);
                assert(replay_trace(start, es, ps, rs, effs));
                assert(replayed(start, es, *self, should_render, effs.flatten()));
                assert(absorbed(a, event, *self, should_render, effs.flatten()));
            }
            should_render
        } else if !self.got_permissions {
            self.pending_events.push(event);
            assert(effects_view(effects@) =~= e0 + seq![]);
            assert(absorbed(a, event, *self, false, seq![]));
            false
        } else {
            self.handle_event(event, effects)
        }
    }

    /// Takes an event from the host; says whether the bar is drawn again,
    /// and what the host is asked to do.
    pub fn update(&mut self, event: Event) -> (res: (bool, Vec<Effect>))
        ensures
            updated(*old(self), event, *final(self), res.0, effects_view(res.1@)),
    {
        let ghost a = *self;
        let mut effects: Vec<Effect> = Vec::new();
        let role = self.role;
        if role == Role::View {
            let r = self.update_view(event, &mut effects);
            assert(effects_view(effects@) =~= seq![] + effects_view(effects@));
            return (r, effects);
        }
        let should_render = self.absorb(event, &mut effects);
        let ghost m = *self;
        let ghost e0 = effects_view(effects@);
        assert(absorbed(a, event, m, should_render, e0)) by {
            assert(effects_view(Seq::<Effect>::empty()) =~= seq![]);
        }
        if role == Role::Controller {
            if self.got_permissions && should_render {
                self.publish_views(&mut effects);
            }
            (false, effects)
        } else {
            (should_render, effects)
        }
    }

    /// Handles a message to the controller from one of its views.
    pub fn handle_view_request(
        &mut self,
        source: PipeSource,
        payload: Option<String>,
        effects: &mut Vec<Effect>,
    ) -> (res: bool)
        ensures
            !res,
            exists|eff: Seq<EffectView>|
                view_request_handled(*old(self), source, opt_view(payload), *final(self), eff)
                    && effects_view(final(effects)@) == effects_view(old(effects)@) + eff,
    {
        let ghost a = *self;
        let ghost e0 = effects_view(effects@);
        let plugin_id = match source {
            PipeSource::Plugin(id) => id,
            _ => {
                assert(effects_view(effects@) =~= e0 + seq![]);
                assert(view_request_handled(a, source, opt_view(payload), *self, seq![]));
                return false;
            },
        };
        let request = match &payload {
            Some(raw) => parse_view_request(raw.as_str()),
            None => None,
        };
        match request {
            None => {
                assert(effects_view(effects@) =~= e0 + seq![]);
                assert(view_request_handled(a, source, opt_view(payload), *self, seq![]));
            },
            Some(ViewRequest::Width(cols)) => {
                self.views.insert(plugin_id, cols);
                let ghost mid = *self;
                if self.got_permissions {
                    self.publish_view(plugin_id, cols, effects);
                    assert(frame_effect(mid, plugin_id, cols) == frame_effect(a, plugin_id, cols));
                    assert(effects_view(effects@) =~= e0 + seq![frame_effect(a, plugin_id, cols)]);
                    assert(view_request_handled(
                        a,
                        source,
                        opt_view(payload),
                        *self,
                        seq![frame_effect(a, plugin_id, cols)],
                    ));
                } else {
                    assert(effects_view(effects@) =~= e0 + seq![]);
                    assert(view_request_handled(a, source, opt_view(payload), *self, seq![]));
                }
            },
            Some(ViewRequest::LeftClick(line, col)) | Some(ViewRequest::RightClick(line, col)) => {
                let mouse = if matches!(request, Some(ViewRequest::LeftClick(_, _))) {
                    Mouse::LeftClick(line, col)
                } else {
                    Mouse::RightClick(line, col)
                };
                match self.views.get(plugin_id) {
                    None => {
                        assert(effects_view(effects@) =~= e0 + seq![]);
                        assert(view_request_handled(a, source, opt_view(payload), *self, seq![]));
                    },
                    Some(cols) => {
                        self.state.cols = cols;
                        let ghost a2 = *self;
                        self.click(mouse, effects);
                        assert(view_request_handled(
                            a,
                            source,
                            opt_view(payload),
                            *self,
                            mouse_effects(a2, mouse),
                        ));
                    },
                }
            },
        }
        false
    }

    /// Takes a message piped to the bar; says whether the bar is drawn
    /// again, and what the host is asked to do.
    pub fn pipe(&mut self, name: &str, source: PipeSource, payload: Option<String>) -> (res: (
        bool,
        Vec<Effect>,
    ))
        ensures
            piped(
                *old(self),
                name@,
                source,
                opt_view(payload),
                *final(self),
                res.0,
                effects_view(res.1@),
            ),
    {
        let ghost a = *self;
        let mut effects: Vec<Effect> = Vec::new();
        assert(effects_view(effects@) =~= seq![]);
        if self.role == Role::View {
            if is_named(name, "zjstatus.view_frame.v1") {
                if let Some(frame) = payload {
                    self.view_frame = frame;
                    return (true, effects);
                }
            } else if is_named(name, "zjstatus.controller_ready.v1") && self.got_permissions {
                self.request_frame(&mut effects);
                assert(effects_view(effects@) =~= frame_request(a.view_width));
            }
            return (false, effects);
        }
        if self.role == Role::Controller && is_named(name, "zjstatus.view_request.v1") {
            let r = self.handle_view_request(source, payload, &mut effects);
            assert(effects_view(effects@) =~= seq![] + effects_view(effects@));
            return (r, effects);
        }
        (false, effects)
    }

    /// Draws the bar `cols` columns wide: a controller draws nothing, a
    /// view shows its last frame, any other bar renders itself.
    pub fn render(&mut self, rows: usize, cols: usize) -> (res: Vec<Effect>)
        ensures
            rendered(*old(self), cols, *final(self), effects_view(res@)),
    {
        let ghost a = *self;
        let mut effects: Vec<Effect> = Vec::new();
        assert(effects_view(effects@) =~= seq![]);
        if self.role == Role::Controller {
            return effects;
        }
        if self.role == Role::View {
            let changed = match self.view_width {
                Some(w) => w != cols,
                None => true,
            };
            if changed {
                self.view_width = Some(cols);
                self.view_frame = String::new();
                if self.got_permissions {
                    self.request_frame(&mut effects);
                }
            }
            let shown = if self.view_frame.as_str().unicode_len() == 0 {
                text(" \u{2026} ")
            } else {
                text(self.view_frame.as_str())
            };
            let ghost before = effects_view(effects@);
            push_effect(&mut effects, Effect::Print(shown));
            assert(effects_view(effects@) =~= before + seq![EffectView::Print(shown@)]);
            assert(rendered(a, cols, *self, effects_view(effects@)));
            return effects;
        }
        if !self.got_permissions {
            return effects;
        }
        if let Some(err) = &self.err {
            let mut t = chars_of("Error: ");
            let m = chars_of(err.message().as_str());
            crate::text::append_chars(&mut t, &m);
            t.push('\n');
            assert(t@ =~= "Error: "@ + error_message(*err) + seq!['\n']);
            push_effect(&mut effects, Effect::Print(string_of(&t)));
            assert(effects_view(effects@) =~= seq![EffectView::Print(t@)]);
            assert(rendered(a, cols, *self, effects_view(effects@)));
            return effects;
        }
        let e = match self.render_frame(cols) {
            Some(output) => Effect::Print(output),
            None => Effect::Fail(self.failure()),
        };
        assert(draw_failure(*self) == draw_failure(a));
        push_effect(&mut effects, e);
        assert(effects_view(effects@) =~= seq![effect_view(e)]);
        assert(rendered(a, cols, *self, effects_view(effects@)));
        effects
    }

    /// Loads the configuration the host gave the bar, and asks for the
    /// permissions and events the bar's role needs.
    pub fn load(&mut self, configuration: Config) -> (res: Vec<Effect>)
        ensures
            loaded(*old(self), configuration@, *final(self), effects_view(res@)),
    {
        let ghost a = *self;
        let ghost cfg = configuration@;
        let mut effects: Vec<Effect> = Vec::new();
        self.role = Role::from_config(&configuration);
        if self.role == Role::View {
            let mut permissions: Vec<Permission> = Vec::new();
            permissions.push(Permission::ReadApplicationState);
            permissions.push(Permission::ChangeApplicationState);
            permissions.push(Permission::RunCommands);
            permissions.push(Permission::MessageAndLaunchOtherPlugins);
            assert(permissions@ =~= load_permissions(Role::View));
            push_effect(&mut effects, Effect::RequestPermissions(permissions));
            let mut kinds: Vec<EventKind> = Vec::new();
            kinds.push(EventKind::Mouse);
            kinds.push(EventKind::PermissionRequestResult);
            assert(kinds@ =~= seq![EventKind::Mouse, EventKind::PermissionRequestResult]);
            push_effect(&mut effects, Effect::Subscribe(kinds));
            self.got_permissions = false;
            self.view_width = None;
            self.view_frame = String::new();
            assert(effects_view(effects@) =~= seq![
                EffectView::RequestPermissions(load_permissions(Role::View)),
                EffectView::Subscribe(seq![EventKind::Mouse, EventKind::PermissionRequestResult]),
            ]);
            return effects;
        }
        let mut permissions: Vec<Permission> = Vec::new();
        permissions.push(Permission::ReadApplicationState);
        permissions.push(Permission::ChangeApplicationState);
        permissions.push(Permission::RunCommands);
        if self.role == Role::Controller {
            permissions.push(Permission::MessageAndLaunchOtherPlugins);
        }
        assert(permissions@ =~= load_permissions(self.role));
        push_effect(&mut effects, Effect::RequestPermissions(permissions));
        let mut kinds: Vec<EventKind> = Vec::new();
        kinds.push(EventKind::Mouse);
        kinds.push(EventKind::ModeUpdate);
        kinds.push(EventKind::PaneUpdate);
        kinds.push(EventKind::PermissionRequestResult);
        kinds.push(EventKind::Timer);
        kinds.push(EventKind::TabUpdate);
        kinds.push(EventKind::SessionUpdate);
        kinds.push(EventKind::RunCommandResult);
        kinds.push(EventKind::HostTerminalThemeChanged);
        assert(kinds@ =~= all_events());
        push_effect(&mut effects, Effect::Subscribe(kinds));
        push_effect(&mut effects, Effect::ScheduleRefresh);
        assert(effects_view(effects@) =~= seq![
            EffectView::RequestPermissions(load_permissions(self.role)),
            EffectView::Subscribe(all_events()),
            EffectView::ScheduleRefresh,
        ]);
        let active_configuration = match configured_host_theme_mode(&configuration) {
            Some(mode) => host_theme_configuration(&configuration, mode),
            None => configuration.duplicate(),
        };
        match ModuleConfig::new(&active_configuration) {
            Ok(mc) => {
                self.module_config = mc;
            },
            Err(e) => {
                self.err = Some(e);
                return effects;
            },
        }
        self.widgets = register_widgets(&active_configuration);
        self.userspace_configuration = configuration;
        self.pending_events = Vec::new();
        self.got_permissions = false;
        self.views.clear();
        self.state = ZellijState::default();
        effects
    }

    /// Asks the controller for a frame of this view's width.
    pub fn request_frame(&self, effects: &mut Vec<Effect>)
        ensures
            effects_view(final(effects)@) == effects_view(old(effects)@) + frame_request(
                self.view_width,
            ),
    {
        if let Some(width) = self.view_width {
            let payload = ViewRequest::Width(width).encode();
            push_effect(
                effects,
                Effect::Message {
                    name: text("zjstatus.view_request.v1"),
                    destination: None,
                    payload: Some(payload),
                },
            );
        }
        assert(effects_view(effects@) =~= effects_view(old(effects)@) + frame_request(
            self.view_width,
        ));
    }
}

} // verus!
