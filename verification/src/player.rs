//! The player's attributes and the decisions taken on them each frame.
//!
//! The player's position is kept by the caller as it is fractional in
//! general; functions that need it take it as integer coordinates. Timers are
//! kept by the caller too: functions that read one take the milliseconds
//! elapsed on it, and say in their result when it must be restarted.

use vstd::prelude::*;
use crate::collision::{
    clamp, clamp_value, resist, resolve_velocity, sort_by_dist, sort_collisions, spec_resist,
    CollisionDecider, Direction,
};
use crate::config::{
    ATTACK_LENGTH, ATTK_COOLDOWN, CENTER_H, CENTER_W, DASH_TIME, DEBUG, DEBUG_NO_WALLS,
    DMG_COOLDOWN, FIRE_COOLDOWN_P, GOD_MODE_DELAY, MANA_RESTORE_RATE, MAP_SIZE_H, MAP_SIZE_W,
    SCAN_COLS, SCAN_ROWS, SHIELD_TIME, TILE_SIZE, TILE_SIZE_64, TILE_SIZE_CAM, TILE_SIZE_PLAYER,
};
use crate::items::{PowerType, ProjectileType, WeaponType};
use crate::rect::{
    check_collision, rects_collide, Point, PointView, Rect, RectView, MAX_INT_VALUE, MIN_INT_VALUE,
};

verus! {

/// The weapon every new player carries.
#[derive(Clone, Copy, Debug, PartialEq, Eq, Structural)]
pub enum Weapon {
    Sword,
}

/// The mathematical model of the player's attributes.
pub struct PlayerView {
    pub cam_pos: RectView,
    pub vel: (int, int),
    pub delta: (int, int),
    pub height: int,
    pub width: int,
    pub src: RectView,
    pub attack_box: RectView,
    pub hp: int,
    pub mana: int,
    pub weapon: WeaponType,
    pub power: PowerType,
    pub coins: int,
    pub max_mana: int,
    pub max_hp: int,
    pub invincible: bool,
    pub shielded: bool,
    pub can_pickup: bool,
    pub can_pickup_shop: bool,
    pub can_pickup_weapon: bool,
    pub shop_price: int,
    pub facing_right: bool,
    pub is_attacking: bool,
    pub is_firing: bool,
    pub god_mode: bool,
}

impl PlayerView {
    /// Health never exceeds its maximum, nor mana its maximum.
    pub open spec fn wf(self) -> bool {
        &&& self.hp <= self.max_hp
        &&& self.mana <= self.max_mana
    }
}

/// The player.
pub struct Player {
    cam_pos: Rect,
    vel: (i32, i32),
    delta: (i32, i32),
    height: u32,
    width: u32,
    src: Rect,
    attack_box: Rect,
    hp: u32,
    mana: i32,
    pub weapon: WeaponType,
    power: PowerType,
    coins: u32,
    max_mana: i32,
    max_hp: u32,
    invincible: bool,
    shielded: bool,
    can_pickup: bool,
    can_pickup_shop: bool,
    can_pickup_weapon: bool,
    shop_price: u32,
    pub facing_right: bool,
    is_attacking: bool,
    pub is_firing: bool,
    pub god_mode: bool,
}

impl View for Player {
    type V = PlayerView;

    closed spec fn view(&self) -> PlayerView {
        PlayerView {
            cam_pos: self.cam_pos@,
            vel: (self.vel.0 as int, self.vel.1 as int),
            delta: (self.delta.0 as int, self.delta.1 as int),
            height: self.height as int,
            width: self.width as int,
            src: self.src@,
            attack_box: self.attack_box@,
            hp: self.hp as int,
            mana: self.mana as int,
            weapon: self.weapon,
            power: self.power,
            coins: self.coins as int,
            max_mana: self.max_mana as int,
            max_hp: self.max_hp as int,
            invincible: self.invincible,
            shielded: self.shielded,
            can_pickup: self.can_pickup,
            can_pickup_shop: self.can_pickup_shop,
            can_pickup_weapon: self.can_pickup_weapon,
            shop_price: self.shop_price as int,
            facing_right: self.facing_right,
            is_attacking: self.is_attacking,
            is_firing: self.is_firing,
            god_mode: self.god_mode,
        }
    }
}

/// Health and mana of a new player.
pub const START_HP: u32 = 30u32;

pub const START_MANA: i32 = 4i32;

/// The power a new player starts with.
pub open spec fn start_power() -> PowerType {
    if DEBUG {
        PowerType::Shield
    } else {
        PowerType::NoPower
    }
}

/// Mana spent to fire a projectile of the given type.
pub open spec fn mana_cost(p: ProjectileType) -> int {
    match p {
        ProjectileType::Shield => 4,
        ProjectileType::Bullet => 2,
        _ => 1,
    }
}

/// The sprite-sheet cell shown for an animation clock value: the sheet holds
/// twelve frames in rows of three, and the clock value `t` shows frame
/// `(t - 1) mod 12`.
pub open spec fn frame_src(elapsed: int) -> RectView {
    let k = (elapsed % 12 + 11) % 12;
    RectView::from_args((k % 3) * 64, (k / 3) * 64, TILE_SIZE_64 as int, TILE_SIZE_64 as int)
}

/// The attack box in front of a player at `(x, y)`.
pub open spec fn attack_box_at(x: int, y: int, facing_right: bool) -> RectView {
    if facing_right {
        RectView::from_args(x + TILE_SIZE, y, ATTACK_LENGTH as int, TILE_SIZE as int)
    } else {
        RectView::from_args(x - ATTACK_LENGTH, y, ATTACK_LENGTH as int, TILE_SIZE as int)
    }
}

/// The side of `other` on which the player's box `p` with center `c` hits it,
/// as the direction in which the player must stop.
pub open spec fn collision_side(p: RectView, c: PointView, other: RectView) -> Direction {
    if p.bottom() >= other.top() && c.y < other.top() {
        Direction::Down
    } else if p.right() >= other.left() && c.x < other.left() {
        Direction::Right
    } else if p.top() <= other.bottom() && c.y > other.bottom() {
        Direction::Up
    } else {
        Direction::Left
    }
}

/// What `minus_hp` did.
#[derive(Clone, Copy, Debug, PartialEq, Eq, Structural)]
pub struct HitOutcome {
    /// Damage was taken: the damage timer restarts.
    pub damaged: bool,
    /// A shield absorbed part of it and broke: the shield timer restarts.
    pub shield_broken: bool,
}

/// The damage actually taken from a hit of `dmg`: a shield absorbs five points.
pub open spec fn absorbed_damage(dmg: int, shielded: bool) -> int {
    if shielded {
        dmg - 5
    } else {
        dmg
    }
}

/// Health after healing by `health`, capped at the maximum.
pub open spec fn healed_hp(hp: int, max_hp: int, health: int) -> int {
    if hp + health >= max_hp {
        max_hp
    } else {
        hp + health
    }
}

/// Whether a dash is in progress.
pub open spec fn dashing(power: PowerType, dash_elapsed: int) -> bool {
    power == PowerType::Dash && dash_elapsed <= DASH_TIME
}

/// The bounds on each velocity component: `dash_limits` while dashing,
/// otherwise `[-speed_limit, speed_limit]`.
pub open spec fn speed_bounds(power: PowerType, dash_elapsed: int, speed_limit: int, dash_limits: (int, int)) -> (int, int) {
    if dashing(power, dash_elapsed) {
        dash_limits
    } else {
        (-speed_limit, speed_limit)
    }
}

/// Outside a dash the speed limit holds alike in both directions: the new
/// velocity stays within `[-speed_limit, speed_limit]`, a velocity already
/// within it (after resistance) is kept as it is, and moving left or up is
/// limited exactly as moving right or down. While dashing, the dash limits
/// hold instead.
pub proof fn lemma_speed_limit_symmetric(
    power: PowerType,
    dash_elapsed: int,
    speed_limit: int,
    dash_limits: (int, int),
    vel: int,
    delta: int,
)
    ensures
        ({
            let b = speed_bounds(power, dash_elapsed, speed_limit, dash_limits);
            let v = vel + spec_resist(vel, delta);
            &&& !dashing(power, dash_elapsed) && 0 <= speed_limit ==> {
                &&& -speed_limit <= clamp(v, b.0, b.1) <= speed_limit
                &&& (-speed_limit <= v <= speed_limit ==> clamp(v, b.0, b.1) == v)
                &&& clamp(-vel + spec_resist(-vel, -delta), b.0, b.1) == -clamp(v, b.0, b.1)
            }
            &&& dashing(power, dash_elapsed) && dash_limits.0 <= dash_limits.1 ==> {
                &&& dash_limits.0 <= clamp(v, b.0, b.1) <= dash_limits.1
                &&& (dash_limits.0 <= v <= dash_limits.1 ==> clamp(v, b.0, b.1) == v)
            }
        }),
{
}

/// Where the camera's tile grid lies: the map row and column of its top-left
/// cell, the player's offset within its tile, and the player's position.
#[derive(Clone, Copy, Debug, PartialEq, Eq, Structural)]
pub struct ScanOrigin {
    pub h_off: i32,
    pub w_off: i32,
    pub x_rem: i32,
    pub y_rem: i32,
    pub px: i32,
    pub py: i32,
}

/// The arithmetic of scanning the camera's tile grid stays within `i32`.
pub open spec fn scan_fits(o: ScanOrigin) -> bool {
    &&& forall|h: int| 0 <= h < SCAN_ROWS ==> #[trigger] scan_row_fits(o, h)
    &&& forall|w: int| 0 <= w < SCAN_COLS ==> #[trigger] scan_col_fits(o, w)
}

pub open spec fn scan_row_fits(o: ScanOrigin, h: int) -> bool {
    &&& h + o.h_off <= i32::MAX
    &&& i32::MIN <= CENTER_H - o.py <= i32::MAX
    &&& i32::MIN <= h * TILE_SIZE - o.y_rem <= i32::MAX
    &&& i32::MIN <= h * TILE_SIZE - o.y_rem - (CENTER_H - o.py) <= i32::MAX
}

pub open spec fn scan_col_fits(o: ScanOrigin, w: int) -> bool {
    &&& o.h_off + SCAN_ROWS - 1 >= 0 ==> w + o.w_off <= i32::MAX
    &&& i32::MIN <= CENTER_W - o.px <= i32::MAX
    &&& i32::MIN <= w * TILE_SIZE - o.x_rem <= i32::MAX
    &&& i32::MIN <= w * TILE_SIZE - o.x_rem - (CENTER_W - o.px) <= i32::MAX
}

/// The box of the wall tile in cell `(h, w)` of the camera's grid.
pub open spec fn wall_box(o: ScanOrigin, h: int, w: int) -> RectView {
    RectView::from_args(
        w * TILE_SIZE - o.x_rem - (CENTER_W - o.px),
        h * TILE_SIZE - o.y_rem - (CENTER_H - o.py),
        TILE_SIZE as int,
        TILE_SIZE as int,
    )
}

/// Map tiles with codes 2 and 5 are walls.
pub open spec fn is_wall(map: Seq<Vec<i32>>, r: int, c: int) -> bool {
    &&& 0 <= r < MAP_SIZE_H
    &&& 0 <= c < MAP_SIZE_W
    &&& (map[r]@[c] == 2 || map[r]@[c] == 5)
}

/// The wall in cell `(h, w)` of the camera's grid, if there is one there and
/// the player's box touches it.
pub open spec fn wall_hit(map: Seq<Vec<i32>>, o: ScanOrigin, h: int, w: int) -> bool {
    &&& is_wall(map, h + o.h_off, w + o.w_off)
    &&& !DEBUG_NO_WALLS
    &&& rects_collide(
        RectView::from_args(o.px as int, o.py as int, TILE_SIZE_PLAYER as int, TILE_SIZE_PLAYER as int),
        wall_box(o, h, w),
    )
}

/// The walls hit in the first `w` cells of row `h` of the camera's grid.
pub open spec fn row_hits(map: Seq<Vec<i32>>, o: ScanOrigin, h: int, w: int) -> Seq<RectView>
    decreases w,
{
    if w <= 0 {
        Seq::empty()
    } else if wall_hit(map, o, h, w - 1) {
        row_hits(map, o, h, w - 1).push(wall_box(o, h, w - 1))
    } else {
        row_hits(map, o, h, w - 1)
    }
}

/// The walls hit in the first `h` rows of the camera's grid, row by row.
pub open spec fn wall_hits(map: Seq<Vec<i32>>, o: ScanOrigin, h: int) -> Seq<RectView>
    decreases h,
{
    if h <= 0 {
        Seq::empty()
    } else {
        wall_hits(map, o, h - 1) + row_hits(map, o, h - 1, SCAN_COLS as int)
    }
}

/// The boxes of the rectangles, in order.
pub open spec fn views(s: Seq<Rect>) -> Seq<RectView> {
    s.map_values(|r: Rect| r@)
}

/// What using the held power does this frame.
#[derive(Clone, Copy, Debug, PartialEq, Eq, Structural)]
pub enum PowerAction {
    /// A projectile of this type is fired (the fire timer restarts).
    Fire(ProjectileType),
    /// The shield is raised (the shield timer restarts).
    Shield,
    /// A dash starts (the dash timer restarts).
    Dash,
    /// Nothing happens.
    NoAction,
}

/// The action of the held power: each needs enough mana, firing and dashing
/// need the player not to be firing already, and a shield not to be raised.
pub open spec fn power_action(power: PowerType, is_firing: bool, shielded: bool, mana: int) -> PowerAction {
    match power {
        PowerType::Fireball => if !is_firing && mana >= 1 {
            PowerAction::Fire(ProjectileType::Fireball)
        } else {
            PowerAction::NoAction
        },
        PowerType::Slimeball => if !is_firing && mana >= 2 {
            PowerAction::Fire(ProjectileType::Bullet)
        } else {
            PowerAction::NoAction
        },
        PowerType::Shield => if !shielded && mana >= 3 {
            PowerAction::Shield
        } else {
            PowerAction::NoAction
        },
        PowerType::Dash => if !is_firing && mana >= 4 {
            PowerAction::Dash
        } else {
            PowerAction::NoAction
        },
        PowerType::NoPower => PowerAction::NoAction,
    }
}

/// The player after `power_action` took place.
pub open spec fn after_power_action(p: PlayerView, a: PowerAction) -> PlayerView {
    match a {
        PowerAction::Fire(t) => PlayerView { is_firing: true, mana: p.mana - mana_cost(t), ..p },
        PowerAction::Shield => PlayerView { mana: p.mana - 3, shielded: true, ..p },
        PowerAction::Dash => PlayerView { mana: p.mana - 4, ..p },
        PowerAction::NoAction => p,
    }
}

/// The counters of a player are never negative, and every attribute fits
/// the integer type that holds it.
pub proof fn lemma_view_ranges(p: Player)
    ensures
        0 <= p@.hp <= u32::MAX,
        0 <= p@.max_hp <= u32::MAX,
        0 <= p@.coins <= u32::MAX,
        0 <= p@.shop_price <= u32::MAX,
        0 <= p@.width <= u32::MAX,
        0 <= p@.height <= u32::MAX,
        i32::MIN <= p@.mana <= i32::MAX,
        i32::MIN <= p@.max_mana <= i32::MAX,
        i32::MIN <= p@.vel.0 <= i32::MAX,
        i32::MIN <= p@.vel.1 <= i32::MAX,
        i32::MIN <= p@.delta.0 <= i32::MAX,
        i32::MIN <= p@.delta.1 <= i32::MAX,
{
}

/// Healing adds the health given while it stays within the maximum.
pub proof fn lemma_heal_exact(hp: int, max_hp: int, health: int)
    ensures
        hp + health < max_hp ==> healed_hp(hp, max_hp, health) == hp + health,
        hp + health >= max_hp ==> healed_hp(hp, max_hp, health) == max_hp,
{
}

/// The attack box lies on the side the player faces: facing right it starts
/// one tile right of the player's left edge `x`, facing left it ends at `x`;
/// it is one tile high, level with the player.
pub proof fn lemma_attack_box_side(x: int, y: int)
    requires
        MIN_INT_VALUE + ATTACK_LENGTH <= x,
        x + TILE_SIZE <= MAX_INT_VALUE,
        MIN_INT_VALUE <= y <= MAX_INT_VALUE,
    ensures
        attack_box_at(x, y, true).left() == x + TILE_SIZE,
        attack_box_at(x, y, true).w == ATTACK_LENGTH,
        attack_box_at(x, y, false).right() == x,
        attack_box_at(x, y, false).w == ATTACK_LENGTH,
        attack_box_at(x, y, true).y == y && attack_box_at(x, y, false).y == y,
        attack_box_at(x, y, true).h == TILE_SIZE && attack_box_at(x, y, false).h == TILE_SIZE,
{
}

/// Healing never lifts health above its maximum, nor lowers it.
pub proof fn lemma_heal_bounds(hp: int, max_hp: int, health: int)
    requires
        0 <= hp <= max_hp,
        0 <= health,
    ensures
        hp <= healed_hp(hp, max_hp, health) <= max_hp,
{
}

/// The player's animation repeats every twelve ticks of its clock.
pub proof fn lemma_frame_cycle(elapsed: int)
    requires
        elapsed >= 0,
    ensures
        frame_src(elapsed + 12) == frame_src(elapsed),
{
}

/// Every frame of the player's animation is a cell of the three-by-four
/// sheet.
pub proof fn lemma_frame_on_sheet(elapsed: int)
    requires
        elapsed >= 0,
    ensures
        exists|col: int, row: int|
            0 <= col < 3 && 0 <= row < 4 && frame_src(elapsed) == #[trigger] RectView::from_args(
                col * 64,
                row * 64,
                TILE_SIZE_64 as int,
                TILE_SIZE_64 as int,
            ),
{
    let k = (elapsed % 12 + 11) % 12;
    assert(frame_src(elapsed) == RectView::from_args((k % 3) * 64, (k / 3) * 64, TILE_SIZE_64 as int, TILE_SIZE_64 as int));
}

/// A hit taken without a shield costs exactly its damage in health; a
/// shield takes five points off it.
pub proof fn lemma_shield_absorbs(dmg: int)
    requires
        dmg >= 5,
    ensures
        absorbed_damage(dmg, true) == absorbed_damage(dmg, false) - 5,
{
}

/// Using a power never raises mana, and keeps the player well formed.
pub proof fn lemma_power_action_spends(p: PlayerView)
    ensures
        ({
            let a = power_action(p.power, p.is_firing, p.shielded, p.mana);
            let q = after_power_action(p, a);
            &&& q.mana <= p.mana
            &&& a != PowerAction::NoAction ==> q.mana >= 0
            &&& p.wf() ==> q.wf()
        }),
{
}

/// The player's box in the scan from `o`.
pub open spec fn scan_player_box(o: ScanOrigin) -> RectView {
    RectView::from_args(o.px as int, o.py as int, TILE_SIZE_PLAYER as int, TILE_SIZE_PLAYER as int)
}

/// The box `r` is that of a cell `(h, w)` of the first `hmax` rows and
/// `wmax` columns of the camera's grid whose map tile has code 2 or 5, and
/// it touches the player's box.
pub open spec fn hit_on_wall_tile(map: Seq<Vec<i32>>, o: ScanOrigin, r: RectView, hmax: int, wmax: int) -> bool {
    exists|h: int, w: int|
        0 <= h < hmax && 0 <= w < wmax && 0 <= h + o.h_off < MAP_SIZE_H && 0 <= w + o.w_off < MAP_SIZE_W
            && (map[h + o.h_off]@[w + o.w_off] == 2 || map[h + o.h_off]@[w + o.w_off] == 5) && r
            == #[trigger] wall_box(o, h, w) && rects_collide(scan_player_box(o), r)
}

proof fn lemma_row_hits_on_walls(map: Seq<Vec<i32>>, o: ScanOrigin, h: int, w: int)
    requires
        0 <= h,
    ensures
        forall|i: int| 0 <= i < row_hits(map, o, h, w).len() ==> hit_on_wall_tile(
            map,
            o,
            #[trigger] row_hits(map, o, h, w)[i],
            h + 1,
            w,
        ),
    decreases w,
{
    if w > 0 {
        lemma_row_hits_on_walls(map, o, h, w - 1);
        let prev = row_hits(map, o, h, w - 1);
        assert forall|i: int| 0 <= i < prev.len() && hit_on_wall_tile(map, o, prev[i], h + 1, w - 1) implies
            hit_on_wall_tile(map, o, #[trigger] prev[i], h + 1, w) by {
            let (hh, ww) = choose|hh: int, ww: int|
                0 <= hh < h + 1 && 0 <= ww < w - 1 && 0 <= hh + o.h_off < MAP_SIZE_H && 0 <= ww + o.w_off
                    < MAP_SIZE_W && (map[hh + o.h_off]@[ww + o.w_off] == 2 || map[hh + o.h_off]@[ww
                    + o.w_off] == 5) && prev[i] == #[trigger] wall_box(o, hh, ww) && rects_collide(
                    scan_player_box(o),
                    prev[i],
                );
            assert(prev[i] == wall_box(o, hh, ww));
        }
        if wall_hit(map, o, h, w - 1) {
            let r = wall_box(o, h, w - 1);
            assert(r == wall_box(o, h, w - 1));
            assert(hit_on_wall_tile(map, o, r, h + 1, w));
        }
    }
}

proof fn lemma_wall_hits_on_walls(map: Seq<Vec<i32>>, o: ScanOrigin, h: int)
    ensures
        forall|i: int| 0 <= i < wall_hits(map, o, h).len() ==> hit_on_wall_tile(
            map,
            o,
            #[trigger] wall_hits(map, o, h)[i],
            h,
            SCAN_COLS as int,
        ),
    decreases h,
{
    if h > 0 {
        lemma_wall_hits_on_walls(map, o, h - 1);
        lemma_row_hits_on_walls(map, o, h - 1, SCAN_COLS as int);
        let a = wall_hits(map, o, h - 1);
        let b = row_hits(map, o, h - 1, SCAN_COLS as int);
        assert forall|i: int| 0 <= i < (a + b).len() implies hit_on_wall_tile(
            map,
            o,
            #[trigger] (a + b)[i],
            h,
            SCAN_COLS as int,
        ) by {
            if i < a.len() {
                assert((a + b)[i] == a[i]);
                assert(hit_on_wall_tile(map, o, a[i], h - 1, SCAN_COLS as int));
                let (hh, ww) = choose|hh: int, ww: int|
                    0 <= hh < h - 1 && 0 <= ww < SCAN_COLS && 0 <= hh + o.h_off < MAP_SIZE_H && 0 <= ww
                        + o.w_off < MAP_SIZE_W && (map[hh + o.h_off]@[ww + o.w_off] == 2 || map[hh
                        + o.h_off]@[ww + o.w_off] == 5) && a[i] == #[trigger] wall_box(o, hh, ww)
                        && rects_collide(scan_player_box(o), a[i]);
                assert(a[i] == wall_box(o, hh, ww));
            } else {
                assert((a + b)[i] == b[i - a.len()]);
                assert(hit_on_wall_tile(map, o, b[i - a.len()], h, SCAN_COLS as int));
            }
        }
    }
}

/// Every wall reported by the scan is the box of a cell of the camera's
/// grid whose map tile has code 2 or 5, and it touches the player's box.
pub proof fn lemma_wall_hits_are_walls(map: Seq<Vec<i32>>, o: ScanOrigin)
    ensures
        forall|i: int| 0 <= i < wall_hits(map, o, SCAN_ROWS as int).len() ==> hit_on_wall_tile(
            map,
            o,
            #[trigger] wall_hits(map, o, SCAN_ROWS as int)[i],
            SCAN_ROWS as int,
            SCAN_COLS as int,
        ),
{
    lemma_wall_hits_on_walls(map, o, SCAN_ROWS as int);
}

proof fn lemma_row_hits_empty(map: Seq<Vec<i32>>, o: ScanOrigin, h: int, w: int)
    requires
        forall|r: int, c: int|
            0 <= r < MAP_SIZE_H && 0 <= c < MAP_SIZE_W ==> map[r]@[c] != 2 && map[r]@[c] != 5,
    ensures
        row_hits(map, o, h, w) == Seq::<RectView>::empty(),
    decreases w,
{
    if w > 0 {
        lemma_row_hits_empty(map, o, h, w - 1);
    }
}

/// A map without tiles of codes 2 and 5 has no walls: the scan reports none.
pub proof fn lemma_no_wall_tiles_no_hits(map: Seq<Vec<i32>>, o: ScanOrigin, h: int)
    requires
        forall|r: int, c: int|
            0 <= r < MAP_SIZE_H && 0 <= c < MAP_SIZE_W ==> map[r]@[c] != 2 && map[r]@[c] != 5,
    ensures
        wall_hits(map, o, h) == Seq::<RectView>::empty(),
    decreases h,
{
    if h > 0 {
        lemma_no_wall_tiles_no_hits(map, o, h - 1);
        lemma_row_hits_empty(map, o, h - 1, SCAN_COLS as int);
        assert(wall_hits(map, o, h) =~= Seq::<RectView>::empty());
    }
}

/// Using a power follows its rules: a shot needs the player not to be firing
/// already and enough mana for it, and it is of the held power's kind; a
/// shield needs none raised and three points of mana; a dash needs the player
/// not to be firing and four points. When those hold, the power is used.
pub proof fn lemma_power_rules(power: PowerType, is_firing: bool, shielded: bool, mana: int)
    ensures
        ({
            let a = power_action(power, is_firing, shielded, mana);
            &&& is_firing ==> !(a is Fire) && a != PowerAction::Dash
            &&& a == PowerAction::Fire(ProjectileType::Fireball) <==> (power == PowerType::Fireball
                && !is_firing && mana >= 1)
            &&& a == PowerAction::Fire(ProjectileType::Bullet) <==> (power == PowerType::Slimeball
                && !is_firing && mana >= 2)
            &&& !(a == PowerAction::Fire(ProjectileType::Shield))
            &&& a == PowerAction::Shield <==> (power == PowerType::Shield && !shielded && mana >= 3)
            &&& a == PowerAction::Dash <==> (power == PowerType::Dash && !is_firing && mana >= 4)
            &&& power == PowerType::NoPower ==> a == PowerAction::NoAction
        }),
{
}

/// Using a power spends exactly its mana: one for a fireball, two for a
/// slimeball, three for a shield, four for a dash, none otherwise; a shot
/// leaves the player firing and a shield raises it; nothing else changes.
pub proof fn lemma_power_costs(p: PlayerView)
    ensures
        ({
            let a = power_action(p.power, p.is_firing, p.shielded, p.mana);
            let q = after_power_action(p, a);
            &&& a == PowerAction::Fire(ProjectileType::Fireball) ==> q == (PlayerView { mana: p.mana - 1, is_firing: true, ..p })
            &&& a == PowerAction::Fire(ProjectileType::Bullet) ==> q == (PlayerView { mana: p.mana - 2, is_firing: true, ..p })
            &&& a == PowerAction::Shield ==> q == (PlayerView { mana: p.mana - 3, shielded: true, ..p })
            &&& a == PowerAction::Dash ==> q == (PlayerView { mana: p.mana - 4, ..p })
            &&& a == PowerAction::NoAction ==> q == p
        }),
{
}

impl Player {
    /// A new player: full health and mana, standing still, with a sword.
    pub fn new() -> (p: Player)
        ensures
            p@.cam_pos == RectView::from_args(0, 0, TILE_SIZE_CAM as int, TILE_SIZE_CAM as int),
            p@.vel == (0int, 0int),
            p@.delta == (0int, 0int),
            p@.height == TILE_SIZE,
            p@.width == TILE_SIZE,
            p@.src == RectView::from_args(0, 0, TILE_SIZE as int, TILE_SIZE as int),
            p@.attack_box == RectView::from_args(0, 0, TILE_SIZE_CAM as int, TILE_SIZE_CAM as int),
            p@.hp == START_HP,
            p@.mana == START_MANA,
            p@.weapon == WeaponType::Sword,
            p@.power == start_power(),
            p@.coins == 0,
            p@.max_mana == START_MANA,
            p@.max_hp == START_HP,
            p@.invincible,
            !p@.shielded,
            !p@.can_pickup,
            !p@.can_pickup_shop,
            !p@.can_pickup_weapon,
            p@.shop_price == 0,
            !p@.facing_right,
            !p@.is_attacking,
            !p@.is_firing,
            !p@.god_mode,
            p@.wf(),
    {
        let power = if DEBUG {
            PowerType::Shield
        } else {
            PowerType::NoPower
        };
        Player {
            cam_pos: Rect::new(0, 0, TILE_SIZE_CAM, TILE_SIZE_CAM),
            vel: (0, 0),
            delta: (0, 0),
            height: TILE_SIZE,
            width: TILE_SIZE,
            src: Rect::new(0, 0, TILE_SIZE, TILE_SIZE),
            attack_box: Rect::new(0, 0, TILE_SIZE_CAM, TILE_SIZE_CAM),
            hp: START_HP,
            mana: START_MANA,
            weapon: WeaponType::Sword,
            power,
            coins: 0,
            max_mana: START_MANA,
            max_hp: START_HP,
            invincible: true,
            shielded: false,
            can_pickup: false,
            can_pickup_shop: false,
            can_pickup_weapon: false,
            shop_price: 0,
            facing_right: false,
            is_attacking: false,
            is_firing: false,
            god_mode: false,
        }
    }

    pub fn set_x_vel(&mut self, x: i32)
        ensures
            final(self)@ == (PlayerView { vel: (x as int, old(self)@.vel.1), ..old(self)@ }),
    {
        self.vel.0 = x;
    }

    pub fn x_vel(&self) -> (r: i32)
        ensures
            r == self@.vel.0,
    {
        self.vel.0
    }

    pub fn set_x_delta(&mut self, x: i32)
        ensures
            final(self)@ == (PlayerView { delta: (x as int, old(self)@.delta.1), ..old(self)@ }),
    {
        self.delta.0 = x;
    }

    pub fn x_delta(&self) -> (r: i32)
        ensures
            r == self@.delta.0,
    {
        self.delta.0
    }

    pub fn width(&self) -> (r: u32)
        ensures
            r == self@.width,
    {
        self.width
    }

    pub fn set_y_vel(&mut self, y: i32)
        ensures
            final(self)@ == (PlayerView { vel: (old(self)@.vel.0, y as int), ..old(self)@ }),
    {
        self.vel.1 = y;
    }

    pub fn y_vel(&self) -> (r: i32)
        ensures
            r == self@.vel.1,
    {
        self.vel.1
    }

    pub fn set_y_delta(&mut self, y: i32)
        ensures
            final(self)@ == (PlayerView { delta: (old(self)@.delta.0, y as int), ..old(self)@ }),
    {
        self.delta.1 = y;
    }

    pub fn y_delta(&self) -> (r: i32)
        ensures
            r == self@.delta.1,
    {
        self.delta.1
    }

    pub fn height(&self) -> (r: u32)
        ensures
            r == self@.height,
    {
        self.height
    }

    /// Updates the sprite-sheet cell shown.
    pub fn set_src(&mut self, x: i32, y: i32)
        ensures
            final(self)@ == (PlayerView {
                src: RectView::from_args(x as int, y as int, TILE_SIZE_64 as int, TILE_SIZE_64 as int),
                ..old(self)@
            }),
    {
        self.src = Rect::new(x, y, TILE_SIZE_64, TILE_SIZE_64);
    }

    pub fn src(&self) -> (r: Rect)
        ensures
            r@ == self@.src,
    {
        self.src
    }

    /// The player's hit box when standing at `(x, y)`.
    pub fn pos(&self, x: i32, y: i32) -> (r: Rect)
        ensures
            r@ == RectView::from_args(x as int, y as int, TILE_SIZE_PLAYER as int, TILE_SIZE_PLAYER as int),
    {
        Rect::new(x, y, TILE_SIZE_PLAYER, TILE_SIZE_PLAYER)
    }

    /// Places the player on the screen: `(px, py)` is the player's position
    /// and `(x, y)` the camera's.
    pub fn set_cam_pos(&mut self, px: i32, py: i32, x: i32, y: i32)
        requires
            i32::MIN <= px - x <= i32::MAX,
            i32::MIN <= py - y <= i32::MAX,
            i32::MIN <= px - x - (TILE_SIZE_CAM - TILE_SIZE_PLAYER) / 2 <= i32::MAX,
            i32::MIN <= py - y - (TILE_SIZE_CAM - TILE_SIZE_PLAYER) / 2 <= i32::MAX,
        ensures
            final(self)@ == (PlayerView {
                cam_pos: RectView::from_args(
                    px - x - (TILE_SIZE_CAM - TILE_SIZE_PLAYER) / 2,
                    py - y - (TILE_SIZE_CAM - TILE_SIZE_PLAYER) / 2,
                    TILE_SIZE_CAM as int,
                    TILE_SIZE_CAM as int,
                ),
                ..old(self)@
            }),
    {
        let d: i32 = TILE_SIZE_CAM as i32 - TILE_SIZE_PLAYER as i32;
        let half: i32 = if d < 0 {
            -d / 2
        } else {
            d / 2
        };
        self.cam_pos = Rect::new(px - x - half, py - y - half, TILE_SIZE_CAM, TILE_SIZE_CAM);
    }

    pub fn get_cam_pos(&self) -> (r: Rect)
        ensures
            r@ == self@.cam_pos,
    {
        self.cam_pos
    }

    /// Shows the animation frame for the animation clock value `elapsed`.
    pub fn get_frame_display(&mut self, elapsed: u128)
        ensures
            final(self)@ == (PlayerView { src: frame_src(elapsed as int), ..old(self)@ }),
    {
        let m = elapsed % 12;
        let (sx, sy): (i32, i32) = match m {
            1 => (0, 0),
            2 => (64, 0),
            3 => (128, 0),
            4 => (0, 64),
            5 => (64, 64),
            6 => (128, 64),
            7 => (0, 128),
            8 => (64, 128),
            9 => (128, 128),
            10 => (0, 192),
            11 => (64, 192),
            _ => (128, 192),
        };
        proof {
            let k = (m + 11) % 12;
            assert(sx == (k % 3) * 64 && sy == (k / 3) * 64);
        }
        self.set_src(sx, sy);
    }

    pub fn get_attack_box(&self) -> (r: Rect)
        ensures
            r@ == self@.attack_box,
    {
        self.attack_box
    }

    /// Places the attack box in front of a player standing at `(x, y)`.
    pub fn set_attack_box(&mut self, x: i32, y: i32)
        requires
            old(self)@.facing_right ==> x + TILE_SIZE <= i32::MAX,
            !old(self)@.facing_right ==> x - ATTACK_LENGTH >= i32::MIN,
        ensures
            final(self)@ == (PlayerView {
                attack_box: attack_box_at(x as int, y as int, old(self)@.facing_right),
                ..old(self)@
            }),
    {
        if self.facing_right {
            self.attack_box = Rect::new(x + TILE_SIZE as i32, y, ATTACK_LENGTH, TILE_SIZE);
        } else {
            self.attack_box = Rect::new(x - ATTACK_LENGTH as i32, y, ATTACK_LENGTH, TILE_SIZE);
        }
    }

    /// Starts a basic attack from `(x, y)` unless the last one started less
    /// than `ATTK_COOLDOWN` milliseconds ago (`attack_elapsed`); returns
    /// whether it started, in which case the attack timer restarts.
    pub fn attack(&mut self, attack_elapsed: u128, x: i32, y: i32) -> (started: bool)
        requires
            attack_elapsed >= ATTK_COOLDOWN ==> (old(self)@.facing_right ==> x + TILE_SIZE
                <= i32::MAX),
            attack_elapsed >= ATTK_COOLDOWN ==> (!old(self)@.facing_right ==> x - ATTACK_LENGTH
                >= i32::MIN),
        ensures
            started == (attack_elapsed >= ATTK_COOLDOWN),
            !started ==> final(self)@ == old(self)@,
            started ==> final(self)@ == (PlayerView {
                is_attacking: true,
                attack_box: attack_box_at(x as int, y as int, old(self)@.facing_right),
                ..old(self)@
            }),
    {
        if attack_elapsed < ATTK_COOLDOWN {
            return false;
        }
        self.is_attacking = true;
        self.set_attack_box(x, y);
        true
    }

    pub fn get_attacking(&self) -> (r: bool)
        ensures
            r == self@.is_attacking,
    {
        self.is_attacking
    }

    /// Spends the mana for firing a projectile of type `p_type`.
    pub fn fire(&mut self, p_type: ProjectileType)
        requires
            old(self)@.mana - mana_cost(p_type) >= i32::MIN,
        ensures
            final(self)@ == (PlayerView {
                is_firing: true,
                mana: old(self)@.mana - mana_cost(p_type),
                ..old(self)@
            }),
            old(self)@.wf() ==> final(self)@.wf(),
    {
        self.is_firing = true;
        match p_type {
            ProjectileType::Shield => {
                self.use_mana(4);
            },
            ProjectileType::Bullet => {
                self.use_mana(2);
            },
            _ => {
                self.use_mana(1);
            },
        }
    }

    pub fn get_mana(&self) -> (r: i32)
        ensures
            r == self@.mana,
    {
        self.mana
    }

    pub fn use_mana(&mut self, x: i32)
        requires
            i32::MIN <= old(self)@.mana - x <= i32::MAX,
        ensures
            final(self)@ == (PlayerView { mana: old(self)@.mana - x, ..old(self)@ }),
            old(self)@.wf() && x >= 0 ==> final(self)@.wf(),
    {
        self.mana = self.mana - x;
    }

    /// Gives back one point of mana when `MANA_RESTORE_RATE` milliseconds have
    /// passed since the last one (`mana_elapsed`) and mana is below its
    /// maximum; returns whether it did, in which case the mana timer restarts.
    pub fn restore_mana(&mut self, mana_elapsed: u128) -> (restored: bool)
        ensures
            restored == (mana_elapsed >= MANA_RESTORE_RATE && old(self)@.mana < old(self)@.max_mana),
            !restored ==> final(self)@ == old(self)@,
            restored ==> final(self)@ == (PlayerView { mana: old(self)@.mana + 1, ..old(self)@ }),
            old(self)@.wf() ==> final(self)@.wf(),
    {
        if mana_elapsed < MANA_RESTORE_RATE || self.mana >= self.max_mana {
            return false;
        }
        self.mana = self.mana + 1;
        true
    }

    pub fn get_power(&self) -> (r: PowerType)
        ensures
            r == self@.power,
    {
        self.power
    }

    pub fn set_power(&mut self, power: PowerType)
        ensures
            final(self)@ == (PlayerView { power, ..old(self)@ }),
    {
        self.power = power;
    }

    pub fn can_pickup(&self) -> (r: bool)
        ensures
            r == self@.can_pickup,
    {
        self.can_pickup
    }

    pub fn set_can_pickup(&mut self, can: bool)
        ensures
            final(self)@ == (PlayerView { can_pickup: can, ..old(self)@ }),
    {
        self.can_pickup = can;
    }

    pub fn can_pickup_shop(&self) -> (r: bool)
        ensures
            r == self@.can_pickup_shop,
    {
        self.can_pickup_shop
    }

    pub fn set_can_pickup_shop(&mut self, can: bool)
        ensures
            final(self)@ == (PlayerView { can_pickup_shop: can, ..old(self)@ }),
    {
        self.can_pickup_shop = can;
    }

    pub fn can_pickup_weapon(&self) -> (r: bool)
        ensures
            r == self@.can_pickup_weapon,
    {
        self.can_pickup_weapon
    }

    pub fn set_can_pickup_weapon(&mut self, can: bool)
        ensures
            final(self)@ == (PlayerView { can_pickup_weapon: can, ..old(self)@ }),
    {
        self.can_pickup_weapon = can;
    }

    pub fn get_weapon(&self) -> (r: WeaponType)
        ensures
            r == self@.weapon,
    {
        self.weapon
    }

    pub fn set_weapon(&mut self, weapon: WeaponType)
        ensures
            final(self)@ == (PlayerView { weapon, ..old(self)@ }),
    {
        self.weapon = weapon;
    }

    pub fn get_shop_price(&self) -> (r: u32)
        ensures
            r == self@.shop_price,
    {
        self.shop_price
    }

    pub fn set_shop_price(&mut self, price: u32)
        ensures
            final(self)@ == (PlayerView { shop_price: price as int, ..old(self)@ }),
    {
        self.shop_price = price;
    }

    /// Raises or drops the shield; either way it costs three points of mana
    /// and the shield timer restarts.
    pub fn set_shielded(&mut self, b: bool)
        requires
            old(self)@.mana - 3 >= i32::MIN,
        ensures
            final(self)@ == (PlayerView { mana: old(self)@.mana - 3, shielded: b, ..old(self)@ }),
            old(self)@.wf() ==> final(self)@.wf(),
    {
        self.mana = self.mana - 3;
        self.shielded = b;
    }

    pub fn get_shielded(&self) -> (r: bool)
        ensures
            r == self@.shielded,
    {
        self.shielded
    }

    /// Starts a dash: it costs four points of mana, and the dash timer restarts.
    pub fn set_dash_timer(&mut self)
        requires
            old(self)@.mana - 4 >= i32::MIN,
        ensures
            final(self)@ == (PlayerView { mana: old(self)@.mana - 4, ..old(self)@ }),
            old(self)@.wf() ==> final(self)@.wf(),
    {
        self.mana = self.mana - 4;
    }

    pub fn get_hp(&self) -> (r: u32)
        ensures
            r == self@.hp,
    {
        self.hp
    }

    pub fn is_dead(&self) -> (r: bool)
        ensures
            r == (self@.hp == 0),
    {
        self.hp <= 0
    }

    /// Takes a hit of `dmg` unless the player is invincible (hit less than
    /// `DMG_COOLDOWN` milliseconds ago, `damage_elapsed`) or in god mode. A
    /// raised shield absorbs five points and drops.
    pub fn minus_hp(&mut self, dmg: u32, damage_elapsed: u128) -> (out: HitOutcome)
        requires
            !(damage_elapsed < DMG_COOLDOWN || old(self)@.god_mode) ==> {
                &&& 0 <= absorbed_damage(dmg as int, old(self)@.shielded) <= old(self)@.hp
                &&& old(self)@.shielded ==> old(self)@.mana - 3 >= i32::MIN
            },
        ensures
            ({
                let immune = damage_elapsed < DMG_COOLDOWN || old(self)@.god_mode;
                let o = old(self)@;
                &&& out.damaged == !immune
                &&& out.shield_broken == (!immune && o.shielded)
                &&& immune ==> final(self)@ == (PlayerView {
                    invincible: damage_elapsed < DMG_COOLDOWN,
                    ..o
                })
                &&& !immune ==> final(self)@ == (PlayerView {
                    invincible: false,
                    hp: o.hp - absorbed_damage(dmg as int, o.shielded),
                    mana: if o.shielded {
                        o.mana - 3
                    } else {
                        o.mana
                    },
                    shielded: false,
                    ..o
                })
            }),
            old(self)@.wf() ==> final(self)@.wf(),
    {
        if self.set_get_invincible(damage_elapsed) || self.god_mode {
            return HitOutcome { damaged: false, shield_broken: false };
        }
        let adjusted_dmg: u32;
        let was_shielded = self.get_shielded();
        if was_shielded {
            adjusted_dmg = dmg - 5;
            self.set_shielded(false);
        } else {
            adjusted_dmg = dmg;
        }
        self.hp = self.hp - adjusted_dmg;
        HitOutcome { damaged: true, shield_broken: was_shielded }
    }

    /// Heals by `health`, up to the maximum health.
    pub fn plus_hp(&mut self, health: u32)
        requires
            old(self)@.hp + health <= u32::MAX,
        ensures
            final(self)@ == (PlayerView {
                hp: healed_hp(old(self)@.hp, old(self)@.max_hp, health as int),
                ..old(self)@
            }),
            old(self)@.wf() ==> final(self)@.wf(),
    {
        if self.hp + health >= self.max_hp {
            self.hp = self.max_hp;
        } else {
            self.hp = self.hp + health;
        }
    }

    /// Raises the maximum health by `health`.
    pub fn upgrade_hp(&mut self, health: u32)
        requires
            old(self)@.max_hp + health <= u32::MAX,
        ensures
            final(self)@ == (PlayerView { max_hp: old(self)@.max_hp + health, ..old(self)@ }),
            old(self)@.wf() ==> final(self)@.wf(),
    {
        self.max_hp = self.max_hp + health;
    }

    /// Records and returns whether the player is still invincible after the
    /// last hit, `damage_elapsed` milliseconds ago.
    pub fn set_get_invincible(&mut self, damage_elapsed: u128) -> (r: bool)
        ensures
            r == (damage_elapsed < DMG_COOLDOWN),
            final(self)@ == (PlayerView { invincible: r, ..old(self)@ }),
    {
        if damage_elapsed < DMG_COOLDOWN {
            self.invincible = true;
        } else {
            self.invincible = false;
        }
        self.invincible
    }

    pub fn get_coins(&self) -> (r: u32)
        ensures
            r == self@.coins,
    {
        self.coins
    }

    pub fn add_coins(&mut self, coins_to_add: u32)
        requires
            old(self)@.coins + coins_to_add <= u32::MAX,
        ensures
            final(self)@ == (PlayerView { coins: old(self)@.coins + coins_to_add, ..old(self)@ }),
    {
        self.coins = self.coins + coins_to_add;
    }

    pub fn sub_coins(&mut self, coins_to_sub: u32)
        requires
            coins_to_sub <= old(self)@.coins,
        ensures
            final(self)@ == (PlayerView { coins: old(self)@.coins - coins_to_sub, ..old(self)@ }),
    {
        self.coins = self.coins - coins_to_sub;
    }

    /// Records a collision between the player's box `p_pos`, centered at
    /// `p_center`, and `other_pos`, at distance `distance`: the player must
    /// stop on the side on which it hits.
    pub fn collect_col(&mut self, p_pos: Rect, p_center: Point, other_pos: Rect, distance: i32) -> (c: CollisionDecider)
        ensures
            c.dir == collision_side(p_pos@, p_center@, other_pos@),
            c.dist == distance,
            final(self)@ == old(self)@,
    {
        if p_pos.bottom() >= other_pos.top() && p_center.y() < other_pos.top() {
            return CollisionDecider::new(Direction::Down, distance);
        }
        if p_pos.right() >= other_pos.left() && p_center.x() < other_pos.left() {
            return CollisionDecider::new(Direction::Right, distance);
        }
        if p_pos.top() <= other_pos.bottom() && p_center.y() > other_pos.bottom() {
            CollisionDecider::new(Direction::Up, distance)
        } else {
            CollisionDecider::new(Direction::Left, distance)
        }
    }
    /// Stops the player against the collisions of this frame: see
    /// `resolve_velocity`; the collisions are taken nearest first.
    pub fn resolve_col(&mut self, collisions: &Vec<CollisionDecider>)
        ensures
            final(self)@ == (PlayerView {
                vel: resolve_velocity(old(self)@.vel, sort_by_dist(collisions@)),
                ..old(self)@
            }),
    {
        let sorted_collisions = sort_collisions(collisions);
        let mut vx = self.x_vel();
        let mut vy = self.y_vel();
        if sorted_collisions.len() > 0 {
            match sorted_collisions[0].dir {
                Direction::Up => {
                    vy = clamp_value(vy, 0, 100);
                    if sorted_collisions.len() > 2 {
                        match sorted_collisions[2].dir {
                            Direction::Up => {
                                vy = clamp_value(vy, 0, 100);
                            },
                            Direction::Down => {},
                            Direction::Left => {
                                vx = clamp_value(vx, 0, 100);
                            },
                            Direction::Right => {
                                vx = clamp_value(vx, -100, 0);
                            },
                            Direction::NoDir => {},
                        }
                    }
                },
                Direction::Down => {
                    vy = clamp_value(vy, -100, 0);
                    if sorted_collisions.len() > 2 {
                        match sorted_collisions[2].dir {
                            Direction::Up => {},
                            Direction::Down => {
                                vy = clamp_value(vy, -100, 0);
                            },
                            Direction::Left => {
                                vx = clamp_value(vx, 0, 100);
                            },
                            Direction::Right => {
                                vx = clamp_value(vx, -100, 0);
                            },
                            Direction::NoDir => {},
                        }
                    }
                },
                Direction::Right => {
                    vx = clamp_value(vx, -100, 0);
                    if sorted_collisions.len() > 2 {
                        match sorted_collisions[2].dir {
                            Direction::Up => {
                                vy = clamp_value(vy, 0, 100);
                            },
                            Direction::Down => {
                                vy = clamp_value(vy, -100, 0);
                            },
                            Direction::Left => {},
                            Direction::Right => {
                                vx = clamp_value(vx, -100, 0);
                            },
                            Direction::NoDir => {},
                        }
                    }
                },
                Direction::Left => {
                    vx = clamp_value(vx, 0, 100);
                    if sorted_collisions.len() > 2 {
                        match sorted_collisions[1].dir {
                            Direction::Up => {
                                vy = clamp_value(vy, 0, 100);
                            },
                            Direction::Down => {
                                vy = clamp_value(vy, -100, 0);
                            },
                            Direction::Left => {
                                vx = clamp_value(vx, 0, 100);
                            },
                            Direction::Right => {},
                            Direction::NoDir => {},
                        }
                    }
                },
                Direction::NoDir => {},
            }
        }
        self.set_x_vel(vx);
        self.set_y_vel(vy);
    }

    /// Applies this frame's acceleration: each component of the input is
    /// replaced by `resist`, added to the velocity, and the result is kept
    /// within the speed bounds (see `speed_bounds`).
    pub fn update_velocity(&mut self, speed_limit: i32, dash_limits: (i32, i32), dash_elapsed: u128)
        requires
            ({
                let o = old(self)@;
                let b = speed_bounds(o.power, dash_elapsed as int, speed_limit as int, (dash_limits.0 as int, dash_limits.1 as int));
                &&& !dashing(o.power, dash_elapsed as int) ==> speed_limit > i32::MIN
                &&& b.0 <= b.1
                &&& i32::MIN <= o.vel.0 + spec_resist(o.vel.0, o.delta.0) <= i32::MAX
                &&& i32::MIN <= o.vel.1 + spec_resist(o.vel.1, o.delta.1) <= i32::MAX
            }),
        ensures
            ({
                let o = old(self)@;
                let b = speed_bounds(o.power, dash_elapsed as int, speed_limit as int, (dash_limits.0 as int, dash_limits.1 as int));
                let d = (spec_resist(o.vel.0, o.delta.0), spec_resist(o.vel.1, o.delta.1));
                final(self)@ == (PlayerView {
                    delta: d,
                    vel: (clamp(o.vel.0 + d.0, b.0, b.1), clamp(o.vel.1 + d.1, b.0, b.1)),
                    ..o
                })
            }),
    {
        let ghost o = self@;
        self.set_x_delta(resist(self.x_vel(), self.x_delta()));
        self.set_y_delta(resist(self.y_vel(), self.y_delta()));
        assert(self@.power == o.power);
        match self.get_power() {
            PowerType::Dash => {
                if dash_elapsed <= DASH_TIME {
                    self.set_x_vel(clamp_value(self.x_vel() + self.x_delta(), dash_limits.0, dash_limits.1));
                    self.set_y_vel(clamp_value(self.y_vel() + self.y_delta(), dash_limits.0, dash_limits.1));
                } else {
                    self.set_x_vel(clamp_value(self.x_vel() + self.x_delta(), -speed_limit, speed_limit));
                    self.set_y_vel(clamp_value(self.y_vel() + self.y_delta(), -speed_limit, speed_limit));
                }
            },
            _ => {
                assert(!dashing(o.power, dash_elapsed as int));
                self.set_x_vel(clamp_value(self.x_vel() + self.x_delta(), -speed_limit, speed_limit));
                self.set_y_vel(clamp_value(self.y_vel() + self.y_delta(), -speed_limit, speed_limit));
            },
        }
    }

    /// An attack in progress follows the player at `(x, y)`, and ends after
    /// `ATTK_COOLDOWN` milliseconds.
    fn follow_attack(&mut self, x: i32, y: i32, attack_elapsed: u128)
        requires
            old(self)@.is_attacking ==> (old(self)@.facing_right ==> x + TILE_SIZE <= i32::MAX),
            old(self)@.is_attacking ==> (!old(self)@.facing_right ==> x - ATTACK_LENGTH >= i32::MIN),
        ensures
            ({
                let o = old(self)@;
                let ended = attack_elapsed > ATTK_COOLDOWN;
                final(self)@ == (PlayerView {
                    is_attacking: o.is_attacking && !ended,
                    attack_box: if ended {
                        RectView::from_args(x as int, y as int, 0, 0)
                    } else if o.is_attacking {
                        attack_box_at(x as int, y as int, o.facing_right)
                    } else {
                        o.attack_box
                    },
                    ..o
                })
            }),
    {
        if self.is_attacking {
            self.set_attack_box(x, y);
        }
        if attack_elapsed > ATTK_COOLDOWN {
            self.is_attacking = false;
            self.attack_box = Rect::new(x, y, 0, 0);
        }
    }

    /// Shots and shields run out after their durations.
    fn expire_effects(&mut self, fire_elapsed: u128, shield_elapsed: u128)
        ensures
            final(self)@ == (PlayerView {
                is_firing: old(self)@.is_firing && !(fire_elapsed > FIRE_COOLDOWN_P),
                shielded: old(self)@.shielded && !(shield_elapsed > SHIELD_TIME),
                ..old(self)@
            }),
    {
        if fire_elapsed > FIRE_COOLDOWN_P {
            self.is_firing = false;
        }
        if shield_elapsed > SHIELD_TIME {
            self.shielded = false;
        }
    }

    /// The end of the player's frame, at `(x, y)`: an attack in progress
    /// follows the player; attacks, shots and shields run out after their
    /// durations (the milliseconds elapsed on their timers are given); and
    /// mana comes back (see `restore_mana`, whose result this returns).
    #[verifier::rlimit(50)]
    pub fn update_status(
        &mut self,
        x: i32,
        y: i32,
        attack_elapsed: u128,
        fire_elapsed: u128,
        shield_elapsed: u128,
        mana_elapsed: u128,
    ) -> (restored: bool)
        requires
            old(self)@.is_attacking ==> (old(self)@.facing_right ==> x + TILE_SIZE <= i32::MAX),
            old(self)@.is_attacking ==> (!old(self)@.facing_right ==> x - ATTACK_LENGTH >= i32::MIN),
        ensures
            ({
                let o = old(self)@;
                let ended = attack_elapsed > ATTK_COOLDOWN;
                let restored_now = mana_elapsed >= MANA_RESTORE_RATE && o.mana < o.max_mana;
                &&& restored == restored_now
                &&& final(self)@ == (PlayerView {
                    is_attacking: o.is_attacking && !ended,
                    attack_box: if ended {
                        RectView::from_args(x as int, y as int, 0, 0)
                    } else if o.is_attacking {
                        attack_box_at(x as int, y as int, o.facing_right)
                    } else {
                        o.attack_box
                    },
                    is_firing: o.is_firing && !(fire_elapsed > FIRE_COOLDOWN_P),
                    shielded: o.shielded && !(shield_elapsed > SHIELD_TIME),
                    mana: if restored_now {
                        o.mana + 1
                    } else {
                        o.mana
                    },
                    ..o
                })
            }),
            old(self)@.wf() ==> final(self)@.wf(),
    {
        self.follow_attack(x, y, attack_elapsed);
        self.expire_effects(fire_elapsed, shield_elapsed);
        self.restore_mana(mana_elapsed)
    }

    /// Toggles god mode unless it was toggled less than `GOD_MODE_DELAY`
    /// milliseconds ago (`god_mode_elapsed`); returns whether it toggled, in
    /// which case the god-mode timer restarts.
    pub fn toggle_god_mode(&mut self, god_mode_elapsed: u128) -> (toggled: bool)
        ensures
            toggled == (god_mode_elapsed > GOD_MODE_DELAY),
            toggled ==> final(self)@ == (PlayerView { god_mode: !old(self)@.god_mode, ..old(self)@ }),
            !toggled ==> final(self)@ == old(self)@,
    {
        if god_mode_elapsed > GOD_MODE_DELAY {
            self.god_mode = !self.god_mode;
            true
        } else {
            false
        }
    }
    /// The walls around the player that its box touches, scanning the
    /// camera's tile grid row by row.
    pub fn wall_collisions(&self, map: &Vec<Vec<i32>>, o: ScanOrigin) -> (hits: Vec<Rect>)
        requires
            map@.len() == MAP_SIZE_H,
            forall|r: int| 0 <= r < map@.len() ==> #[trigger] map@[r]@.len() == MAP_SIZE_W,
            scan_fits(o),
        ensures
            views(hits@) == wall_hits(map@, o, SCAN_ROWS as int),
    {
        let mut hits: Vec<Rect> = Vec::new();
        for h in 0..SCAN_ROWS
            invariant
                map@.len() == MAP_SIZE_H,
                forall|r: int| 0 <= r < map@.len() ==> #[trigger] map@[r]@.len() == MAP_SIZE_W,
                scan_fits(o),
                views(hits@) == wall_hits(map@, o, h as int),
        {
            assert(scan_row_fits(o, h as int));
            for w in 0..SCAN_COLS
                invariant
                    h < SCAN_ROWS,
                    map@.len() == MAP_SIZE_H,
                    forall|r: int| 0 <= r < map@.len() ==> #[trigger] map@[r]@.len() == MAP_SIZE_W,
                    scan_fits(o),
                    scan_row_fits(o, h as int),
                    views(hits@) == wall_hits(map@, o, h as int) + row_hits(map@, o, h as int, w as int),
            {
                assert(scan_col_fits(o, w as int));
                let w_pos = Rect::new(
                    (w as i32) * (TILE_SIZE as i32) - o.x_rem - (CENTER_W - o.px),
                    (h as i32) * (TILE_SIZE as i32) - o.y_rem - (CENTER_H - o.py),
                    TILE_SIZE,
                    TILE_SIZE,
                );
                let r = h as i32 + o.h_off;
                let ghost before = hits@;
                if r >= 0 && w as i32 + o.w_off >= 0 && r < MAP_SIZE_H as i32 && w as i32 + o.w_off
                    < MAP_SIZE_W as i32 {
                    let c = w as i32 + o.w_off;
                    let v = map[r as usize][c as usize];
                    if v != 0 && (v == 2 || v == 5) {
                        let p_pos = self.pos(o.px, o.py);
                        if !DEBUG_NO_WALLS && check_collision(&p_pos, &w_pos) {
                            hits.push(w_pos);
                        }
                    }
                }
                proof {
                    assert(views(hits@) =~= if wall_hit(map@, o, h as int, w as int) {
                        views(before).push(wall_box(o, h as int, w as int))
                    } else {
                        views(before)
                    });
                }
            }
        }
        hits
    }
    /// Uses the held power when the player asks for it (see `power_action`).
    pub fn use_power(&mut self) -> (a: PowerAction)
        ensures
            a == power_action(old(self)@.power, old(self)@.is_firing, old(self)@.shielded, old(self)@.mana),
            final(self)@ == after_power_action(old(self)@, a),
            old(self)@.wf() ==> final(self)@.wf(),
    {
        match self.get_power() {
            PowerType::Fireball => {
                if !self.is_firing && self.get_mana() >= 1 {
                    self.fire(ProjectileType::Fireball);
                    PowerAction::Fire(ProjectileType::Fireball)
                } else {
                    PowerAction::NoAction
                }
            },
            PowerType::Slimeball => {
                if !self.is_firing && self.get_mana() >= 2 {
                    self.fire(ProjectileType::Bullet);
                    PowerAction::Fire(ProjectileType::Bullet)
                } else {
                    PowerAction::NoAction
                }
            },
            PowerType::Shield => {
                if !self.get_shielded() && self.get_mana() >= 3 {
                    self.set_shielded(true);
                    PowerAction::Shield
                } else {
                    PowerAction::NoAction
                }
            },
            PowerType::Dash => {
                if !self.is_firing && self.get_mana() >= 4 {
                    self.set_dash_timer();
                    PowerAction::Dash
                } else {
                    PowerAction::NoAction
                }
            },
            _ => PowerAction::NoAction,
        }
    }
}

} // verus!
