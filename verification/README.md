# mybox

A modular desktop toolbox: a tray application whose modules (a screenshot
tool, a command palette, a demo panel) share an event bus, a configuration
store, global hotkeys and a window manager.

## Layout

- `src/` — the library, verified with Verus:
  - `command` — commands, the command registry, the builtin commands;
  - `config` — the sectioned configuration store;
  - `context` — work deferred to the main thread until its loop is live;
  - `error` — the framework error type and its conversions;
  - `event` — events, subscription filters and the subscriber list;
  - `hotkey` — the hotkey-id to action table and the trigger event;
  - `module` — the module registry;
  - `pixels` — RGBA pixel-format conversions and cropping;
  - `capture` — the screenshot session: phases, overlay pairing, the
    permission gate, annotations and toolbar actions;
  - `palette` — the command palette: its session state machine, the fuzzy
    filter, the texture table, key routing and execution decisions;
  - `tray`, `window`, `test_module` — the tray menu layout, window kinds and
    profiles, and the demo module's data.
- `tests/` — tests of the library.
- `app/` — the program around the library: the winit event loop, rendering,
  egui drawing, the OS hotkey and tray services, file I/O and threads.
