# tili

A tiling window manager for macOS, with its logic verified.

The library under `src/` holds everything that tili decides: what commands mean,
how the configuration is read, where each window belongs, what each monitor
shows, when something counts as closed, and what the daemon, the command line
and the menu bar badge do next. It is written in Verus: every function states
what it returns or changes, and Verus proves that it does.

The library touches no window. It is handed plain values (what a scan found, what
the container trees answered, how late it is) and gives back the actions that
have to be performed, in order. Coordinates are carried through as bit patterns
of floating-point numbers and never computed with.

## Layout

- `src/text.rs`, `src/table.rs`: texts and association tables.
- `src/ipc.rs`, `src/command.rs`, `src/wire.rs`: commands, how they are written,
  and how they travel.
- `src/document.rs`, `src/config.rs`, `src/rules.rs`, `src/hotkey.rs`,
  `src/modes.rs`: the configuration file and what it says.
- `src/placement.rs`, `src/window.rs`, `src/forest.rs`, `src/desk.rs`,
  `src/grace.rs`: windows, workspaces, monitors, and periods of grace.
- `src/state.rs` and `src/state/`: the whole state. `src/state/laws.rs` proves
  what holds of it whatever happens: no window is in two trees or lost, no
  workspace is shown twice, and a command that fails changes nothing.
  `src/state/presence.rs` proves that what a monitor shows exists, and
  `src/state/returning.rs` that windows come back from special states to where
  they were.
- `src/dispatch.rs`, `src/daemon.rs`, `src/watch.rs`: the daemon's decisions.
- `src/display.rs`, `src/resize.rs`, `src/setter.rs`: displays, dragging, and
  moving windows.
- `src/paths.rs`, `src/cli.rs`, `src/doctor.rs`, `src/menubar.rs`: the command
  line and the badge.
- `app/`: the programs, which read and write the real things.
- `tests/`: the library, run.

What is believed without proof stands in `src/document.rs` (the KDL parser) and
`src/rules.rs` (regular expressions), with what is claimed of each function.
