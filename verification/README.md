# rwm

The state and decisions of a stacking window manager for the River Wayland
compositor, verified with Verus.

- `src/` is the verified library:
  - `context` — windows, outputs, seats and the focus stack; every action,
    window event and pointer press becomes a new state plus the commands to
    send to the compositor (`Command`);
  - `window`, `output` — per-window and per-output state and the requests
    each change sends;
  - `layout` — tile, grid, monocle, scroller and float arrangements;
  - `rule` — window rules (literal or regular-expression patterns);
  - `config`, `action` — settings, default bindings and rules;
  - `titlebar`, `frame`, `menu`, `shapes` — titlebar buttons, frame and
    window-menu drawing;
  - `pixels`, `render` — ARGB buffers: blending, rectangles, image copies
    and glyph drawing.
- `app/` is the program around it: reading the configuration file, loading
  fonts and placing glyphs by their floating-point metrics, and starting
  programs.
- `tests/` runs the library on concrete values.
