# ui

The logic of a desktop component library, written in Verus and proved
against its contracts: what each component does with its state, apart from
drawing it.

- `src/` is the verified library. Among its modules:
  - `input`, `history`, `utf`, `segment`, `lines`, `pattern`: a text input
    (cursor, selection, IME marked text, undo and redo grouped in time,
    masking, validation by a regular expression), over UTF-8 text with
    UTF-16 offsets.
  - `number`: a number input that steps integers of any width, and the
    decimal text it shows.
  - `menu`, `dropdown`, `blink`: popup menus, list and picker selection,
    dropdowns, a blinking cursor.
  - `dock`, `dock_area`, `dock_item`, `tab_panel`, `stack_panel`, `tiles`,
    `tree_node`, `saved_layout`: the bookkeeping of docks, tab panels,
    stacks, tiles and layout trees, and saving and rebuilding a layout.
  - `colors`, `keys`, `icon`, `anchor`, `widgets`, `charts`: colour codes,
    key labels, icon paths, popover corners, small widgets, chart rendering.
- `tests/` runs the library on concrete values.
- `app/` is ordinary Rust around the library: floating-point colours and
  pointer geometry, and the JSON form of a saved layout.
