# pandamonium

A small platform game: a panda runs and jumps through tile-map levels,
collecting coins, fruit, keys and rubies before the flash lamps round the
screen run out.

- `src/` is the verified core, checked by Verus: the entity store, the
  event queue with its schedule and dispatcher, tile maps and their
  cursors, the audio cue queue and noise clock, the controls, the title
  and high-score screens, the scoring rules, the decisions of level
  building (what each tile places, the ring of flash lamps, and the
  timers for the hero, the countdown and the time limit, read from tile
  sets and pictures), and the discrete decisions of the hero and the
  scenery. Each public function carries a contract, and the laws that
  tie functions together are stated and proved as proof functions named
  `law_...`.
- `tests/` runs the library on concrete values.
- `app/` is the game around it: the window, input, sound and asset
  loading, the assembly of a level's maps and entities from those
  decisions, and the parts of the world that move by floating-point
  physics and geometry.
