# tui_vfx_recipes

Recipe handling for terminal visual-effect notifications, written in Verus.

A recipe is a JSON document that describes a notification: its message, size
and anchor, lifecycle timing, border chrome, styles and compositor stages. A
recipe may extend a template; templates are merged under the recipe.

## Layout

- `src/` — the verified library.
  - `json`, `template`, `recipe`, `refs`, `registry`, `recipes`: documents
    read from JSON text, template chains (cycle and depth checks, path policy, deep merge), schema
    checks, references into a recipe's pipeline, and a recipe registry.
  - `config`, `theme`, `chrome`, `color`, `frame`: recipe settings turned into
    appearances, theme resolution, border trimming, titles, centring, colour
    and style conversions, frame content.
  - `geometry`, `layout`, `state`, `manager`, `types`, `grid`: anchors and
    dwell rectangles, stacking and grid layout, the lifecycle state machine,
    and the animation manager with its render plan.
  - `inspector`, `stage`: pipeline inspectors.
  - `text`: string ordering, sorting and decimal formatting.
- `tests/` — tests run against the compiled library.
- `app/` — the terminal side: files in, serde's typed recipe schema, ratatui
  buffers out, with the tui-vfx crates doing floating-point animation and
  compositing.
