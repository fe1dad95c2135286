//! Setting up a level: what the spawn grid places where, where the player
//! starts, where the exit lies, the next floor, and the random rolls that
//! steer enemies.

use vstd::prelude::*;
use rand::Rng;
use crate::config::{CAM_H, CAM_W, MAP_SIZE_H, MAP_SIZE_W, TILE_SIZE, TILE_SIZE_CAM, TILE_SIZE_PLAYER};
use crate::rect::{check_collision, rects_collide, Rect, RectView};

verus! {

/// The kinds of enemies.
#[derive(Clone, Copy, Debug, PartialEq, Eq, Structural)]
pub enum EnemyType {
    Melee,
    Ranged,
    Skeleton,
    Eyeball,
    Boss,
}

/// What a cell of the spawn grid places.
#[derive(Clone, Copy, Debug, PartialEq, Eq, Structural)]
pub enum SpawnKind {
    Enemy(EnemyType),
    Crate,
}

/// Something to place in a level, and where.
#[derive(Clone, Copy, Debug, PartialEq, Eq, Structural)]
pub struct Spawn {
    pub kind: SpawnKind,
    pub pos: Rect,
}

/// What a spawn-grid code places: 1 melee, 2 ranged, 3 a crate, 4 a
/// skeleton, 5 an eyeball, 6 the boss; any other code nothing.
pub open spec fn spawn_kind(code: i32) -> Option<SpawnKind> {
    if code == 1 {
        Some(SpawnKind::Enemy(EnemyType::Melee))
    } else if code == 2 {
        Some(SpawnKind::Enemy(EnemyType::Ranged))
    } else if code == 3 {
        Some(SpawnKind::Crate)
    } else if code == 4 {
        Some(SpawnKind::Enemy(EnemyType::Skeleton))
    } else if code == 5 {
        Some(SpawnKind::Enemy(EnemyType::Eyeball))
    } else if code == 6 {
        Some(SpawnKind::Enemy(EnemyType::Boss))
    } else {
        None
    }
}

/// Only codes 1 to 6 place something: 3 a crate, the others an enemy each
/// of its own kind; 0 and every other code place nothing.
pub proof fn lemma_spawn_codes(code: i32)
    ensures
        spawn_kind(code) is Some <==> 1 <= code <= 6,
        spawn_kind(code) == Some(SpawnKind::Crate) <==> code == 3,
        forall|c1: i32, c2: i32|
            1 <= c1 <= 6 && 1 <= c2 <= 6 && c1 != c2 ==> #[trigger] spawn_kind(c1) != #[trigger] spawn_kind(c2),
        spawn_kind(code) == Some(SpawnKind::Enemy(EnemyType::Boss)) <==> code == 6,
{
}

/// The side of what spawns: the boss is four times as large as the rest.
pub open spec fn spawn_side(kind: SpawnKind) -> int {
    if kind == SpawnKind::Enemy(EnemyType::Boss) {
        TILE_SIZE_CAM * 4
    } else {
        TILE_SIZE_CAM as int
    }
}

/// The box of what spawns from cell `(h, w)` of the grid, in the game's
/// coordinates, which put the camera's center at the origin.
pub open spec fn spawn_box(h: int, w: int, side: int) -> RectView {
    RectView::from_args(
        w * TILE_SIZE - (CAM_W - TILE_SIZE) / 2,
        h * TILE_SIZE - (CAM_H - TILE_SIZE) / 2,
        side,
        side,
    )
}

/// The spawns of the first `w` cells of row `h` of the grid.
pub open spec fn row_spawns(grid: Seq<Vec<i32>>, h: int, w: int) -> Seq<(SpawnKind, RectView)>
    decreases w,
{
    if w <= 0 {
        Seq::empty()
    } else {
        let prev = row_spawns(grid, h, w - 1);
        match spawn_kind(grid[h]@[w - 1]) {
            Some(k) => prev.push((k, spawn_box(h, w - 1, spawn_side(k)))),
            None => prev,
        }
    }
}

/// The spawns of the first `h` rows of the grid, row by row.
pub open spec fn grid_spawns(grid: Seq<Vec<i32>>, h: int) -> Seq<(SpawnKind, RectView)>
    decreases h,
{
    if h <= 0 {
        Seq::empty()
    } else {
        grid_spawns(grid, h - 1) + row_spawns(grid, h - 1, MAP_SIZE_W as int)
    }
}

/// The kinds and boxes of the spawns, in order.
pub open spec fn spawn_views(s: Seq<Spawn>) -> Seq<(SpawnKind, RectView)> {
    s.map_values(|x: Spawn| (x.kind, x.pos@))
}

/// Reads the spawn grid of a level, row by row, into what it places and where.
pub fn plan_spawns(grid: &Vec<Vec<i32>>) -> (spawns: Vec<Spawn>)
    requires
        grid@.len() == MAP_SIZE_H,
        forall|r: int| 0 <= r < grid@.len() ==> #[trigger] grid@[r]@.len() == MAP_SIZE_W,
    ensures
        spawn_views(spawns@) == grid_spawns(grid@, MAP_SIZE_H as int),
{
    let mut spawns: Vec<Spawn> = Vec::new();
    for h in 0..MAP_SIZE_H
        invariant
            grid@.len() == MAP_SIZE_H,
            forall|r: int| 0 <= r < grid@.len() ==> #[trigger] grid@[r]@.len() == MAP_SIZE_W,
            spawn_views(spawns@) == grid_spawns(grid@, h as int),
    {
        for w in 0..MAP_SIZE_W
            invariant
                h < MAP_SIZE_H,
                grid@.len() == MAP_SIZE_H,
                forall|r: int| 0 <= r < grid@.len() ==> #[trigger] grid@[r]@.len() == MAP_SIZE_W,
                spawn_views(spawns@) == grid_spawns(grid@, h as int) + row_spawns(grid@, h as int, w as int),
        {
            let ghost before = spawns@;
            let code = grid[h][w];
            let x = w as i32 * TILE_SIZE as i32 - (CAM_W as i32 - TILE_SIZE as i32) / 2;
            let y = h as i32 * TILE_SIZE as i32 - (CAM_H as i32 - TILE_SIZE as i32) / 2;
            let kind = if code == 1 {
                Some(SpawnKind::Enemy(EnemyType::Melee))
            } else if code == 2 {
                Some(SpawnKind::Enemy(EnemyType::Ranged))
            } else if code == 3 {
                Some(SpawnKind::Crate)
            } else if code == 4 {
                Some(SpawnKind::Enemy(EnemyType::Skeleton))
            } else if code == 5 {
                Some(SpawnKind::Enemy(EnemyType::Eyeball))
            } else if code == 6 {
                Some(SpawnKind::Enemy(EnemyType::Boss))
            } else {
                None
            };
            match kind {
                Some(k) => {
                    let side = match k {
                        SpawnKind::Enemy(EnemyType::Boss) => TILE_SIZE_CAM * 4,
                        _ => TILE_SIZE_CAM,
                    };
                    spawns.push(Spawn { kind: k, pos: Rect::new(x, y, side, side) });
                },
                None => {},
            }
            proof {
                assert(spawn_views(spawns@) =~= match spawn_kind(grid@[h as int]@[w as int]) {
                    Some(k) => spawn_views(before).push((k, spawn_box(h as int, w as int, spawn_side(k)))),
                    None => spawn_views(before),
                });
            }
        }
    }
    spawns
}

/// Where the player starts, for the start cell `start` (column, row) of
/// the map, with the game's coordinates centered on the camera.
pub open spec fn start_coords(start: (usize, usize)) -> (int, int) {
    (
        (#[verifier::truncate] (start.0 as i32)) * TILE_SIZE - (CAM_W - 2 * TILE_SIZE_PLAYER) / 2,
        (#[verifier::truncate] (start.1 as i32)) * TILE_SIZE - (CAM_H - 2 * TILE_SIZE_PLAYER) / 2,
    )
}

/// Where the player starts on a map whose start cell is `start`.
pub fn starting_position(start: (usize, usize)) -> (r: (i32, i32))
    requires
        i32::MIN <= (#[verifier::truncate] (start.0 as i32)) * TILE_SIZE <= i32::MAX,
        i32::MIN <= (#[verifier::truncate] (start.1 as i32)) * TILE_SIZE <= i32::MAX,
        i32::MIN <= start_coords(start).0 <= i32::MAX,
        i32::MIN <= start_coords(start).1 <= i32::MAX,
    ensures
        r.0 == start_coords(start).0,
        r.1 == start_coords(start).1,
{
    let x = (#[verifier::truncate] (start.0 as i32)) * TILE_SIZE as i32 - (CAM_W - 2 * TILE_SIZE_PLAYER) as i32 / 2;
    let y = (#[verifier::truncate] (start.1 as i32)) * TILE_SIZE as i32 - (CAM_H - 2 * TILE_SIZE_PLAYER) as i32 / 2;
    (x, y)
}

/// The box of the exit of a map whose exit cell is `end` (column, row).
pub open spec fn exit_box(end: (usize, usize)) -> RectView {
    RectView::from_args(
        (#[verifier::truncate] (end.0 as i32)) * TILE_SIZE - (CAM_W - TILE_SIZE) / 2,
        (#[verifier::truncate] (end.1 as i32)) * TILE_SIZE - (CAM_H - TILE_SIZE) / 2,
        TILE_SIZE as int,
        TILE_SIZE as int,
    )
}

/// The arithmetic of `exit_box` stays within `i32`.
pub open spec fn exit_fits(end: (usize, usize)) -> bool {
    &&& i32::MIN <= (#[verifier::truncate] (end.0 as i32)) * TILE_SIZE <= i32::MAX
    &&& i32::MIN <= (#[verifier::truncate] (end.1 as i32)) * TILE_SIZE <= i32::MAX
    &&& i32::MIN <= (#[verifier::truncate] (end.0 as i32)) * TILE_SIZE - (CAM_W - TILE_SIZE) / 2 <= i32::MAX
    &&& i32::MIN <= (#[verifier::truncate] (end.1 as i32)) * TILE_SIZE - (CAM_H - TILE_SIZE) / 2 <= i32::MAX
}

/// The exit of a map whose exit cell is `end`.
pub fn exit_rect(end: (usize, usize)) -> (r: Rect)
    requires
        exit_fits(end),
    ensures
        r@ == exit_box(end),
{
    Rect::new(
        (#[verifier::truncate] (end.0 as i32)) * TILE_SIZE as i32 - (CAM_W - TILE_SIZE) as i32 / 2,
        (#[verifier::truncate] (end.1 as i32)) * TILE_SIZE as i32 - (CAM_H - TILE_SIZE) as i32 / 2,
        TILE_SIZE,
        TILE_SIZE,
    )
}

/// Whether a player standing at `(px, py)` is on the exit, and so may leave
/// the level.
pub fn at_exit(px: i32, py: i32, end: (usize, usize)) -> (r: bool)
    requires
        exit_fits(end),
    ensures
        r == rects_collide(
            RectView::from_args(px as int, py as int, TILE_SIZE_CAM as int, TILE_SIZE_CAM as int),
            exit_box(end),
        ),
{
    let mpos = exit_rect(end);
    let ppos = Rect::new(px, py, TILE_SIZE_CAM, TILE_SIZE_CAM);
    check_collision(&ppos, &mpos)
}

/// The floor after `floor`, the side of its map, and whether it is a boss
/// floor: maps grow by thirty tiles a floor from 61 on the first, and every
/// floor after the third holds the boss.
pub open spec fn floor_after(floor: int) -> (int, int, bool) {
    (floor + 1, 61 + floor * 30, floor + 1 > 3)
}

/// Goes down to the next floor once the exit is taken.
pub fn next_floor(floor: u32) -> (r: (u32, usize, bool))
    requires
        floor < u32::MAX,
        floor * 30 <= u32::MAX,
        61 + floor * 30 <= usize::MAX,
    ensures
        (r.0 as int, r.1 as int, r.2) == floor_after(floor as int),
{
    let current_floor = floor + 1;
    let map_size = 61 + ((current_floor - 1) * 30) as usize;
    (current_floor, map_size, current_floor > 3)
}

/// Calls `rand::Rng::gen_range` on the thread's random generator, which
/// returns a value of `[low, high)` (it panics on an empty range, which
/// `requires` rules out). Which value comes is left open.
#[verifier::external_body]
fn random_in_range(low: i32, high: i32) -> (r: i32)
    requires
        low < high,
    ensures
        low <= r < high,
{
    rand::thread_rng().gen_range(low..high)
}

/// The lowest and one past the highest of the rolls that steer an enemy.
pub const ROLL_LOW: i32 = 1i32;

pub const ROLL_HIGH: i32 = 5i32;

/// A random roll that steers an enemy: one of `1, 2, 3, 4`.
pub fn roll_direction() -> (r: i32)
    ensures
        ROLL_LOW <= r < ROLL_HIGH,
{
    random_in_range(ROLL_LOW, ROLL_HIGH)
}

/// One steering roll for each of `n` enemies.
pub fn initial_rolls(n: usize) -> (rolls: Vec<i32>)
    ensures
        rolls@.len() == n,
        forall|i: int| 0 <= i < n ==> ROLL_LOW <= #[trigger] rolls@[i] < ROLL_HIGH,
{
    let mut rolls: Vec<i32> = Vec::new();
    for i in 0..n
        invariant
            rolls@.len() == i,
            forall|j: int| 0 <= j < i ==> ROLL_LOW <= #[trigger] rolls@[j] < ROLL_HIGH,
    {
        rolls.push(roll_direction());
    }
    rolls
}

/// Whether an enemy gets a new steering roll this frame: on every multiple
/// of 120 milliseconds of the frame clock, or when it is forced to move.
pub open spec fn rerolls(frame_ms: u128, forced: bool) -> bool {
    frame_ms % 120 == 0 || forced
}

/// Gives enemy `i` a new random steering roll when `rerolls` says so; the
/// other rolls stay.
pub fn reroll_direction(rolls: &mut Vec<i32>, i: usize, frame_ms: u128, forced: bool)
    requires
        i < old(rolls)@.len(),
    ensures
        final(rolls)@.len() == old(rolls)@.len(),
        forall|j: int| 0 <= j < old(rolls)@.len() && j != i ==> #[trigger] final(rolls)@[j] == old(rolls)@[j],
        rerolls(frame_ms, forced) ==> ROLL_LOW <= final(rolls)@[i as int] < ROLL_HIGH,
        !rerolls(frame_ms, forced) ==> final(rolls)@[i as int] == old(rolls)@[i as int],
{
    if frame_ms % 120 == 0 || forced {
        let r = roll_direction();
        rolls.set(i, r);
    }
}

/// The box of the test crate placed near a player at `(px, py)`, offset by
/// the rolls `dx` and `dy`.
pub open spec fn dev_crate_box(px: int, py: int, dx: int, dy: int) -> RectView {
    RectView::from_args(px - 200 + dx, py - 200 + dy, TILE_SIZE as int, TILE_SIZE as int)
}

/// The test crate placed near a player at `(px, py)`, offset by `dx` and `dy`.
pub fn dev_crate_pos_from(px: i32, py: i32, dx: i32, dy: i32) -> (r: Rect)
    requires
        i32::MIN <= px - 200 <= i32::MAX,
        i32::MIN <= py - 200 <= i32::MAX,
        i32::MIN <= px - 200 + dx <= i32::MAX,
        i32::MIN <= py - 200 + dy <= i32::MAX,
    ensures
        r@ == dev_crate_box(px as int, py as int, dx as int, dy as int),
{
    Rect::new(px - 200 + dx, py - 200 + dy, TILE_SIZE, TILE_SIZE)
}

/// The test crate placed near a player at `(px, py)`, at a random offset of
/// `1..10` to the right and `0..10` down.
pub fn dev_crate_pos(px: i32, py: i32) -> (r: Rect)
    requires
        i32::MIN <= px - 200,
        px - 200 + 9 <= i32::MAX,
        i32::MIN <= py - 200,
        py - 200 + 9 <= i32::MAX,
    ensures
        exists|dx: int, dy: int|
            1 <= dx < 10 && 0 <= dy < 10 && r@ == #[trigger] dev_crate_box(px as int, py as int, dx, dy),
{
    let dx = random_in_range(1, 10);
    let dy = random_in_range(0, 10);
    let r = dev_crate_pos_from(px, py, dx, dy);
    assert(r@ == dev_crate_box(px as int, py as int, dx as int, dy as int));
    r
}

} // verus!
