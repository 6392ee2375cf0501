# sway_monocle_layout

A daemon for the sway window manager with two independent modes:

- **monitor mode** manages one output: a single tiled window gets a
  borderless monocle look, two or more windows get a tabbed layout with
  the newest one focused, and the daemon backs off when the user changes
  the layout or makes a window fullscreen;
- **focus-back mode** remembers which window was focused when each window
  opened, and when the focused window closes, focuses the nearest ancestor
  that is still on a visible workspace (launchers and menus are passed
  over).

## Layout

- `src/` is the library, verified with Verus. The decisions of both modes
  are state machines there (`policy::Policy`, `focus_back::FocusBackEngine`,
  `snapshot::StablePoll`): each step takes what the driver observed and
  returns the next thing to do. Around them stand the reading of sway's
  container tree (`tree`, `snapshot`), the text of the sway commands
  (`commands`), the IPC framing (`ipc`), the PID file rules (`pid`) and the
  command line (`cli`). `policy_laws` and the `law_*` proof functions in the
  other modules state what holds of every step.
- `app/` is the program: the sway socket, JSON decoding, signals, timers and
  the event loops that drive the library's state machines.
- `tests/` exercises the library on concrete trees, events and command
  lines.
