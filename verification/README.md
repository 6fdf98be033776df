# snake

The rules of a grid snake game, verified with Verus.

- `src/` is the library: the board (`grid`), directions and keys
  (`direction`), the snake's movement and growth (`snake`), food placement on
  a free cell (`food`, drawing its random cell through `random`), the
  game-over check (`game_state`), the start button's geometry (`button`) and
  the whole game with its tick and key handling (`mainstate`).
- `app/` is the program around it: the window, the clock, the keyboard and
  all drawing, on `good-web-game`.
- `tests/` runs the library on concrete games.
