# game_engine

A small entity-component game engine (on `hecs`) and three sample games (on `macroquad`),
with their rules verified by Verus.

- `src/` — the verified library: the AI level-of-detail plan (`systems`), the engine's
  run state and world bookkeeping (`engine`), the underground base builder's rules (`base`),
  the swarm survivor's hit and removal rules (`swarm`), and the adventure's dialog, field and
  battle state machine (`adventure`). Random draws go through `macroquad::rand`.
- `app/` — the program: the menu, the frame loops of the three games, input, drawing, and
  every piece of floating-point geometry (positions, velocities, timers, the timing bar).
- `tests/` — tests of the library, run against the real `hecs` and `macroquad` crates.
