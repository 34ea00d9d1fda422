# tde

A keyboard-driven desktop that lives in the terminal: tiling panes, up to nine
workspaces, a launcher, notification toasts, a statusbar and Lua plugins.

`src/` is the verified library (Verus):

- `layout` — the panes of one workspace, focus movement, splitting, closing, and the
  tiling of an area among the panes (through ratatui's layout solver);
- `workspace` — the workspaces, switching between them, and the tabs of the bar;
- `keys` — what each key press does under the configured keybinds, and when a tick is due;
- `notifications` — the toast queue fed by a channel, and where toasts go on screen;
- `terminal` — the shell output a pane keeps (its last 200 lines);
- `statusbar` — the segments of the statusbar;
- `plugin` — the Lua state plugins run in (each plugin with globals of its own), the
  hooks each plugin defines and their calls, and which files are plugins;
- `config` — the configuration and its defaults;
- `text` — decimal numbers, characters pushed onto strings, and comparing strings.

`app/` is the program around it: terminal setup and drawing, the event loop, the
configuration file, the plugin directory, the PTY and the system readings.
