# Vizardra

A small vector sketch editor. The library (`src/`) holds the editor's model
and rules, verified with Verus; `app/` is the iced desktop program around it.

Library modules:

- `color` – RGBA colours, `#RRGGBB[AA]` parsing and printing.
- `object` – object kinds, transforms, path points and new-object defaults.
  Coordinates and sizes are kept as the bit patterns of `f32` values; the
  library stores and copies them, the program does the arithmetic.
- `document` – the ordered object list: add, find, edit, remove, reorder,
  count, hit selection.
- `state` – the editing state: selection, active tool, status line and the
  bounded undo/redo history.
- `canvas` – the canvas gesture state machine: what a press, a release,
  Escape and finishing a drawn path do with each tool. Hit tests, distances
  and bounding boxes are worked out by the program and handed in.
- `path` – the recursion of freehand-stroke simplification.
- `project` – project file framing (`VZD1` magic and UTF-8 JSON text).
- `svg` – SVG document framing and XML escaping.
- `input`, `renderer`, `text` – panel messages and input decisions, the
  renderer interface, and string helpers.

`app/` holds the window, file dialogs, file I/O, JSON (de)serialisation and
all floating-point geometry.
