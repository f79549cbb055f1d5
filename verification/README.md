# ball_arena

Game logic of a small bevy/rapier physics arena, verified with Verus.

- `src/replay.rs` — the replay log of the main character's movement: recording,
  frame-by-frame playback, and the laws that a replay plays back what was
  recorded and asks for the final state comparison at most once.
- `src/clock.rs` — the simulation tick: reset, per-frame advance while the
  physics runs, and its decimal text.
- `src/input.rs` — what the keyboard asks for (movement direction, gait, save).
- `src/ui.rs` — application states and the in-game button decisions.
- `src/arena.rs` — the arena's boundaries, the starting grid of balls and their
  spawn order.
- `app/` — the bevy systems that read input, run the ECS and rendering, and do
  the floating-point vector math around these functions.
