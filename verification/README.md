# minefield

An endless minesweeper field drawn with bevy.

- `src/` is the verified library: the lattice of cells and the tiles inside
  them (`position`), the cell model and the bomb layout of a new cell
  (`cell`), the tiles a chunk shows and the generator that deals them
  (`tiles`), the whole starting state of a game (`world`), and what keys and
  clicks ask for (`input`).
- `app/` is the bevy program around it: systems, rendering, and the
  floating-point placement of the cursor, camera and cells in world space.
- `tests/` exercises the library on concrete values.
