# snake

A terminal snake game whose logic is verified with Verus.

- `src/` — the verified library: field geometry and segment shapes
  (`geometry`), the snake and its moves (`snake`), the field (`map`), the
  drawing plans for the snake (`render`) and the glyphs and colours they use
  (`draw`), the game state and key bindings (`game`), the frame demo
  (`demo`) and 24-bit colour escape codes (`ansi`).
- `app/` — the terminal front end: it reads keys, keeps the step clock and
  sends the library's drawing plans to the terminal through crossterm.
- `tests/` — tests of the library on concrete values.
