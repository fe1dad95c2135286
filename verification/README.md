# roguelike

The logic of a tile-based rogue-like game, verified with Verus.

- `src/rect.rs`: rectangles and points with SDL's clamping rules, and the
  collision test.
- `src/collision.rs`: collision records, velocity resistance, sorting
  collisions by distance, and how the player stops against them.
- `src/player.rs`: the player's attributes (health, mana, coins, powers,
  attack and status) and the per-frame decisions on them, including the
  scan for walls around the player.
- `src/animation.rs`, `src/render.rs`: sprite-sheet cells and screen layout.
- `src/level.rs`: spawning a level from its spawn grid, the start and the
  exit, going down a floor, and the random rolls that steer enemies.
- `src/pickup.rs`, `src/combat.rs`: picking up powers, weapons, coins and shop
  wares, and the damage rules.
- `src/items.rs`, `src/config.rs`: kinds of items, sizes and timings.

The player's position is fractional and its timers are clocks, so both are
kept by the caller (`app/`), which hands the library integer coordinates and
elapsed milliseconds; `app/` also holds the window, input and drawing.
