# mb_tui

Terminal UI building blocks whose navigation, layout and text logic is
written in Verus and proved against its contracts.

## Layout

- `src/` — the verified library.
  - `devkit/` — the playground's decisions: the unified session's modal
    contexts, bindings and hints, and what each key press does to it; the
    editor playground's key dispatch, status context and scenarios; and
    the trace view's overview fixture, proved admitted.
  - `input/` — key events, modal key bindings and hints, the render
    scheduler and render effects.
  - `markdown/` — markdown rendering: the events `pulldown-cmark` yields
    for a text, read into the renderer's own event type by a trusted
    wrapper, rendered into styled, word-wrapped lines proved against their
    specification.
  - `render/` — sizes and constraints, flex layout, cached measurement,
    overflow behaviour, and display-width text helpers.
  - `terminal/`, `theme/` — palette selection from the terminal background.
  - `tree/` — the collapsible tree model and its cursor and scroll state.
  - `widget/` — bar selector, flame graph (span tree, visible rows,
    navigation, undo/redo, marks, focus, transitions), flashcard, gauge
    layout, hotkey coach, queue list, separator, tab bar, trace view (admission,
    projection onto the flame graph, selection), and a vim-style editor.
  - Files named `laws.rs` (and `flame_graph/paths.rs`) hold the proved
    properties that relate several operations; `trace_view/coverage.rs`,
    `structure.rs` and `records.rs` hold the facts about the projected
    trace tree that those properties rest on.
- `tests/` — tests run against the compiled library.
- `app/` — terminal drawing with `ratatui` at the positions the library
  computes, key conversion from `crossterm`, floating-point progress and
  bar weights, and theme state.
