# egui_pc98_revival

A NEC PC-98 text-mode look for egui: an 8-colour digital palette, sharp
1-dot frames, whole-pixel dot sizes, and a small set of widgets (titled
panel, header bar, function-key bar, list view, tabs, segment bar, seek bar,
dialogs, icons, spinner, marquee).

## Layout

- `src/` is the verified library (Verus). It holds what the widgets decide,
  independent of how egui paints them:
  - `palette`: the palette as packed `0xRRGGBB` colours and `Palette::hue`;
  - `layout`: `fit_by_priority`, which drops the least important items of a
    row until it fits, proved against a direct statement of which items go;
  - `style`: which palette colour each part of the egui theme takes;
  - `text`: cell counts (full-width characters take two cells), tail
    truncation and the scrolling-label window;
  - `widgets::list`: whole-cell column placement (`column_layout`) and the
    cursor model of the list view (`ListState::clamp`, `ListState::apply_keys`);
  - `widgets::icon`, `widgets::spinner`: the dot-grid cells of the icons and
    spinner shapes;
  - `widgets::{tabs, message_box, dialog, segment, check, toggle, fkey}`:
    selection, outcome, close, sizing and colour rules of those widgets.
  Each public function's contract states its result exactly; the laws
  (ordering of drops, monotonicity, fair sharing of leftover cells, cursor
  bounds, icon symmetries, ...) are public proof functions next to them.
- `app/` is the egui front end: style installation, painting, input, and all
  floating-point geometry (dot sizes, pixel snapping, seek and segment
  geometry, animation timing). It calls the library for every decision above.
- `tests/` exercises the library on concrete values.
