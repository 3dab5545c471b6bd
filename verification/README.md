# Tiny Fields

An idle game: collect resources, craft items and fill job slots to do more
things at the same time.

## Layout

- `src/` is the game's rules as a library verified with Verus:
  - `game.rs`: items, the inventory (a map from item to amount), effects,
    intents and the game state, with the two halves of a job's update
    (`prepare_job`, `finish_job_action`);
  - `job.rs`, `skill.rs`: job and skill archetypes, their tables, and the
    per-archetype action counters;
  - `counts_actions.rs`: action counters and levels;
  - `number_text.rs`, `draw.rs`: how numbers are written on screen, with the
    `f32`/`f64` rounding of the renderer stated exactly over integers;
  - `assets.rs`, `palette.rs`, `job_slot.rs`: asset ids, colors, slot states;
  - `laws.rs`: properties across operations.
- `app/` is the program around it (macroquad): loading assets, drawing, input,
  the frame loop, the time each job has spent on its action, and the float
  level curves.
- `tests/` runs the library on concrete values.
