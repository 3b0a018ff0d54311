# zjstatus

A configurable status bar for the zellij terminal multiplexer, written in
Verus: the bar's logic is verified against its contracts, and a thin zellij
plugin drives it.

## Layout

- `src/` — the verified library.
  - `text.rs`, `config_map.rs` — character sequences, decimal numbers and the
    key/value configuration the host hands over.
  - `style.rs`, `terminal.rs` — format strings (`#[fg=..,bold]text`), colors
    and escape codes; text widths come from `console`, escape codes from
    `anstyle`.
  - `state.rs` — what the bar knows of the session (tabs, panes, mode, width).
  - `tabs.rs` — the tab list: formats, indicators, the window of tabs around
    the active one, fitting into a width limit, and which tab a column shows.
  - `render.rs` — filling `{widget}` placeholders and recording where each
    widget was drawn.
  - `config.rs` — the bar's configuration, host palettes, the three sections,
    trimming by precedence, spacing and mouse handling.
  - `protocol.rs`, `views.rs` — the messages between a controller bar and the
    views it renders for, and the controller's table of views (a `BTreeMap`).
  - `host.rs`, `plugin.rs` — the plugin as a state machine: each event,
    message and redraw gives the next state and the effects the host performs.
- `tests/` — tests of the library.
- `app/main.rs` — the zellij plugin: converts the host's values, calls the
  library, and performs the effects it returns.

## Not part of this crate

The bar draws the tab list and any widget output it is handed by name. These
parts of the full bar are absent, and nothing here stands in for them:

- the widgets other than the tab list (command, datetime, mode,
  notifications, pipe, session, swap layout) and their click handling;
- borders above or below the bar;
- hiding pane frames on pane and session updates;
- the pipe protocol that lets other plugins and the command line feed
  widgets: piped messages other than the controller/view messages change
  nothing;
- storing command results and applying session snapshots: those events
  change nothing;
- caching widget output by event mask: every draw renders every widget.
