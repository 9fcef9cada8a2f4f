# roguelike_engine

A tile-based roguelike and village simulation engine whose rules are
verified with Verus.

- `src/` is the verified library: the map grid and its terrain rules, the
  map builders (simple dungeon, drunkard's bombing run, BSP farm, villages)
  with the snapshots they record, fire, melee and item use, the input and
  command tables, the AI decisions that do not score in floating point,
  end-of-turn upkeep, entity blueprints and the layout of every console
  panel. Each public function states what it returns or changes in its
  `requires`/`ensures`; functions driven by random numbers state what
  holds of every outcome.
- `app/` is plain Rust around the library: reading the settings file,
  keyboard events, serialisable copies of library types, log lines, and the
  parts computed in floating point (AI scoring, colour scaling, particles).
- `tests/` exercises the library on concrete values.

The only unverified calls are the wrappers in `src/rng.rs` (the random
number generators of `rltk` and `rand`) and `src/cp437.rs` (`rltk`'s
code page 437 table), each with a contract stated from the crate's source.
