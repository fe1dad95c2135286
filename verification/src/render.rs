//! Where things go on the screen: the visible floor tiles, the shield
//! outline, the weapons, and which way a fireball faces.

use vstd::prelude::*;
use crate::config::{
    ATTACK_LENGTH_SPEAR, ATTACK_LENGTH_SWORD, CENTER_H, CENTER_W, MAP_SIZE_H, MAP_SIZE_W, SCAN_COLS, SCAN_ROWS,
    TILE_SIZE, TILE_SIZE_64, TILE_SIZE_CAM, TILE_SIZE_HALF, TILE_SIZE_POWER,
};
use crate::player::ScanOrigin;
use crate::rect::{Point, PointView, Rect, RectView};

verus! {

/// The texture of a map tile.
#[derive(Clone, Copy, Debug, PartialEq, Eq, Structural)]
pub enum TileKind {
    Floor,
    Tile,
    Moss,
    Shop,
    Upstairs,
    Downstairs,
}

/// The texture drawn for a map code: 0 is empty, 1 floor, 2 tile, 3 the
/// stairs up, 5 moss, 6 a shop floor, and any other code the stairs down.
pub open spec fn tile_kind(code: i32) -> Option<TileKind> {
    if code == 0 {
        None
    } else if code == 1 {
        Some(TileKind::Floor)
    } else if code == 2 {
        Some(TileKind::Tile)
    } else if code == 5 {
        Some(TileKind::Moss)
    } else if code == 6 {
        Some(TileKind::Shop)
    } else if code == 3 {
        Some(TileKind::Upstairs)
    } else {
        Some(TileKind::Downstairs)
    }
}

/// Empty tiles (code 0) are not drawn; every other code is drawn, the codes
/// 1, 2, 3, 5 and 6 each with a texture of its own.
pub proof fn lemma_tile_codes(code: i32)
    ensures
        tile_kind(code) is None <==> code == 0,
        forall|c1: i32, c2: i32|
            (c1 == 1 || c1 == 2 || c1 == 3 || c1 == 5 || c1 == 6) && (c2 == 1 || c2 == 2 || c2 == 3
                || c2 == 5 || c2 == 6) && c1 != c2 ==> #[trigger] tile_kind(c1) != #[trigger] tile_kind(c2),
{
}

/// The screen box of cell `(h, w)` of the camera's grid.
pub open spec fn screen_tile_box(o: ScanOrigin, h: int, w: int) -> RectView {
    RectView::from_args(w * TILE_SIZE - o.x_rem, h * TILE_SIZE - o.y_rem, TILE_SIZE as int, TILE_SIZE as int)
}

/// What is drawn in cell `(h, w)` of the camera's grid: nothing off the map
/// or on an empty tile.
pub open spec fn visible_tile(map: Seq<Vec<i32>>, o: ScanOrigin, h: int, w: int) -> Option<TileKind> {
    let r = h + o.h_off;
    let c = w + o.w_off;
    if 0 <= r < MAP_SIZE_H && 0 <= c < MAP_SIZE_W {
        tile_kind(map[r]@[c])
    } else {
        None
    }
}

/// The tiles drawn in the first `w` cells of row `h` of the camera's grid.
pub open spec fn row_tiles(map: Seq<Vec<i32>>, o: ScanOrigin, h: int, w: int) -> Seq<(TileKind, RectView)>
    decreases w,
{
    if w <= 0 {
        Seq::empty()
    } else {
        match visible_tile(map, o, h, w - 1) {
            Some(k) => row_tiles(map, o, h, w - 1).push((k, screen_tile_box(o, h, w - 1))),
            None => row_tiles(map, o, h, w - 1),
        }
    }
}

/// The tiles drawn in the first `h` rows of the camera's grid, row by row.
pub open spec fn visible_tiles_upto(map: Seq<Vec<i32>>, o: ScanOrigin, h: int) -> Seq<(TileKind, RectView)>
    decreases h,
{
    if h <= 0 {
        Seq::empty()
    } else {
        visible_tiles_upto(map, o, h - 1) + row_tiles(map, o, h - 1, SCAN_COLS as int)
    }
}

/// The arithmetic of laying out the camera's grid stays within `i32`.
pub open spec fn layout_fits(o: ScanOrigin) -> bool {
    &&& forall|h: int| 0 <= h < SCAN_ROWS ==> #[trigger] layout_row_fits(o, h)
    &&& forall|w: int| 0 <= w < SCAN_COLS ==> #[trigger] layout_col_fits(o, w)
}

pub open spec fn layout_row_fits(o: ScanOrigin, h: int) -> bool {
    &&& h + o.h_off <= i32::MAX
    &&& i32::MIN <= h * TILE_SIZE - o.y_rem <= i32::MAX
}

pub open spec fn layout_col_fits(o: ScanOrigin, w: int) -> bool {
    &&& o.h_off + SCAN_ROWS - 1 >= 0 ==> w + o.w_off <= i32::MAX
    &&& i32::MIN <= w * TILE_SIZE - o.x_rem <= i32::MAX
}

/// The kinds and boxes of the tiles, in order.
pub open spec fn tile_views(s: Seq<(TileKind, Rect)>) -> Seq<(TileKind, RectView)> {
    s.map_values(|t: (TileKind, Rect)| (t.0, t.1@))
}

/// The floor tiles to draw around the player, row by row, with their screen
/// boxes; each is drawn from the whole of its texture.
pub fn visible_tiles(map: &Vec<Vec<i32>>, o: ScanOrigin) -> (tiles: Vec<(TileKind, Rect)>)
    requires
        map@.len() == MAP_SIZE_H,
        forall|r: int| 0 <= r < map@.len() ==> #[trigger] map@[r]@.len() == MAP_SIZE_W,
        layout_fits(o),
    ensures
        tile_views(tiles@) == visible_tiles_upto(map@, o, SCAN_ROWS as int),
{
    let mut tiles: Vec<(TileKind, Rect)> = Vec::new();
    for h in 0..SCAN_ROWS
        invariant
            map@.len() == MAP_SIZE_H,
            forall|r: int| 0 <= r < map@.len() ==> #[trigger] map@[r]@.len() == MAP_SIZE_W,
            layout_fits(o),
            tile_views(tiles@) == visible_tiles_upto(map@, o, h as int),
    {
        assert(layout_row_fits(o, h as int));
        for w in 0..SCAN_COLS
            invariant
                h < SCAN_ROWS,
                map@.len() == MAP_SIZE_H,
                forall|r: int| 0 <= r < map@.len() ==> #[trigger] map@[r]@.len() == MAP_SIZE_W,
                layout_fits(o),
                layout_row_fits(o, h as int),
                tile_views(tiles@) == visible_tiles_upto(map@, o, h as int) + row_tiles(map@, o, h as int, w as int),
        {
            assert(layout_col_fits(o, w as int));
            let ghost before = tiles@;
            let pos = Rect::new(
                (w as i32) * (TILE_SIZE as i32) - o.x_rem,
                (h as i32) * (TILE_SIZE as i32) - o.y_rem,
                TILE_SIZE,
                TILE_SIZE,
            );
            let r = h as i32 + o.h_off;
            if r >= 0 && w as i32 + o.w_off >= 0 && r < MAP_SIZE_H as i32 && w as i32 + o.w_off
                < MAP_SIZE_W as i32 {
                let c = w as i32 + o.w_off;
                let num = map[r as usize][c as usize];
                if num != 0 {
                    let kind = match num {
                        1 => TileKind::Floor,
                        2 => TileKind::Tile,
                        5 => TileKind::Moss,
                        6 => TileKind::Shop,
                        3 => TileKind::Upstairs,
                        _ => TileKind::Downstairs,
                    };
                    tiles.push((kind, pos));
                }
            }
            proof {
                assert(tile_views(tiles@) =~= match visible_tile(map@, o, h as int, w as int) {
                    Some(k) => tile_views(before).push((k, screen_tile_box(o, h as int, w as int))),
                    None => tile_views(before),
                });
            }
        }
    }
    tiles
}

/// The outline drawn around a shielded player shown at `cam_pos`.
pub fn shield_outline_rect(cam_pos: Rect, facing_right: bool) -> (r: Rect)
    ensures
        r@ == RectView::from_args(
            if facing_right {
                cam_pos@.x - TILE_SIZE_CAM / 8
            } else {
                cam_pos@.x - TILE_SIZE_CAM / 4
            },
            cam_pos@.y - TILE_SIZE_CAM / 4,
            TILE_SIZE_64 + TILE_SIZE_CAM / 4,
            TILE_SIZE_64 + TILE_SIZE_CAM / 4,
        ),
{
    proof {
        use_type_invariant(&cam_pos);
    }
    Rect::new(
        if facing_right {
            cam_pos.x() - (TILE_SIZE_CAM / 8) as i32
        } else {
            cam_pos.x() - (TILE_SIZE_CAM / 4) as i32
        },
        cam_pos.y() - (TILE_SIZE_CAM / 4) as i32,
        TILE_SIZE_64 + TILE_SIZE_CAM / 4,
        TILE_SIZE_64 + TILE_SIZE_CAM / 4,
    )
}

/// Where a weapon of length `len` is drawn for a player shown at `cam_pos`,
/// `dy` below the player's top and pushed forward by `lunge`, and the point
/// it turns about: in front of the player, on the side it faces.
pub open spec fn weapon_box(cam_pos: RectView, facing_right: bool, len: int, dy: int, lunge: int) -> RectView {
    if facing_right {
        RectView::from_args(cam_pos.x + TILE_SIZE_CAM + lunge, cam_pos.y + dy, len, TILE_SIZE_CAM * 7 / 5)
    } else {
        RectView::from_args(cam_pos.x - len - lunge, cam_pos.y + dy, len, TILE_SIZE_CAM * 7 / 5)
    }
}

pub open spec fn weapon_pivot(facing_right: bool, len: int) -> PointView {
    if facing_right {
        PointView { x: 0, y: TILE_SIZE_HALF as int }
    } else {
        PointView { x: len, y: TILE_SIZE_HALF as int }
    }
}

/// Where the sword is drawn, and the point it turns about.
pub fn sword_placement(cam_pos: Rect, facing_right: bool) -> (r: (Rect, Point))
    ensures
        r.0@ == weapon_box(cam_pos@, facing_right, ATTACK_LENGTH_SWORD as int, (TILE_SIZE_CAM / 2) as int, 0),
        r.1@ == weapon_pivot(facing_right, ATTACK_LENGTH_SWORD as int),
{
    proof {
        use_type_invariant(&cam_pos);
    }
    if facing_right {
        (
            Rect::new(
                cam_pos.x() + TILE_SIZE_CAM as i32,
                cam_pos.y() + (TILE_SIZE_CAM / 2) as i32,
                ATTACK_LENGTH_SWORD,
                TILE_SIZE_CAM * 7 / 5,
            ),
            Point::new(0, TILE_SIZE_HALF as i32),
        )
    } else {
        (
            Rect::new(
                cam_pos.x() - ATTACK_LENGTH_SWORD as i32,
                cam_pos.y() + (TILE_SIZE_CAM / 2) as i32,
                ATTACK_LENGTH_SWORD,
                TILE_SIZE_CAM * 7 / 5,
            ),
            Point::new(ATTACK_LENGTH_SWORD as i32, TILE_SIZE_HALF as i32),
        )
    }
}

/// Where the spear is drawn, thrust forward by `lunge`, and the point it
/// turns about.
pub fn spear_placement(cam_pos: Rect, facing_right: bool, lunge: i32) -> (r: (Rect, Point))
    requires
        facing_right ==> i32::MIN <= cam_pos@.x + TILE_SIZE_CAM + lunge <= i32::MAX,
        !facing_right ==> i32::MIN <= cam_pos@.x - ATTACK_LENGTH_SPEAR - lunge <= i32::MAX,
    ensures
        r.0@ == weapon_box(cam_pos@, facing_right, ATTACK_LENGTH_SPEAR as int, 0, lunge as int),
        r.1@ == weapon_pivot(facing_right, ATTACK_LENGTH_SPEAR as int),
{
    proof {
        use_type_invariant(&cam_pos);
    }
    if facing_right {
        (
            Rect::new(
                cam_pos.x() + TILE_SIZE_CAM as i32 + lunge,
                cam_pos.y(),
                ATTACK_LENGTH_SPEAR,
                TILE_SIZE_CAM * 7 / 5,
            ),
            Point::new(0, TILE_SIZE_HALF as i32),
        )
    } else {
        (
            Rect::new(
                cam_pos.x() - ATTACK_LENGTH_SPEAR as i32 - lunge,
                cam_pos.y(),
                ATTACK_LENGTH_SPEAR,
                TILE_SIZE_CAM * 7 / 5,
            ),
            Point::new(ATTACK_LENGTH_SPEAR as i32, TILE_SIZE_HALF as i32),
        )
    }
}

/// The screen box of an object of side `size` lying at `(x, y)`, for a
/// player at `(px, py)` drawn at the screen's center.
pub fn object_screen_rect(x: i32, y: i32, px: i32, py: i32, size: u32) -> (r: Rect)
    requires
        i32::MIN <= CENTER_W - px <= i32::MAX,
        i32::MIN <= CENTER_H - py <= i32::MAX,
        i32::MIN <= x + (CENTER_W - px) <= i32::MAX,
        i32::MIN <= y + (CENTER_H - py) <= i32::MAX,
    ensures
        r@ == RectView::from_args(x + (CENTER_W - px), y + (CENTER_H - py), size as int, size as int),
{
    Rect::new(x + (CENTER_W - px), y + (CENTER_H - py), size, size)
}

/// The screen box of the ware of the shop slot on map cell `spawn` (row,
/// column), for a player at `(px, py)`.
pub open spec fn shop_ware_box(spawn: (usize, usize), px: int, py: int) -> RectView {
    RectView::from_args(
        (#[verifier::truncate] (spawn.1 as i32)) * TILE_SIZE - px,
        (#[verifier::truncate] (spawn.0 as i32)) * TILE_SIZE - py,
        TILE_SIZE_POWER as int,
        TILE_SIZE_POWER as int,
    )
}

/// The screen box of the ware of the shop slot on map cell `spawn`.
pub fn shop_ware_rect(spawn: (usize, usize), px: i32, py: i32) -> (r: Rect)
    requires
        i32::MIN <= (#[verifier::truncate] (spawn.1 as i32)) * TILE_SIZE <= i32::MAX,
        i32::MIN <= (#[verifier::truncate] (spawn.0 as i32)) * TILE_SIZE <= i32::MAX,
        i32::MIN <= (#[verifier::truncate] (spawn.1 as i32)) * TILE_SIZE - px <= i32::MAX,
        i32::MIN <= (#[verifier::truncate] (spawn.0 as i32)) * TILE_SIZE - py <= i32::MAX,
    ensures
        r@ == shop_ware_box(spawn, px as int, py as int),
{
    Rect::new(
        (#[verifier::truncate] (spawn.1 as i32)) * TILE_SIZE as i32 - px,
        (#[verifier::truncate] (spawn.0 as i32)) * TILE_SIZE as i32 - py,
        TILE_SIZE_POWER,
        TILE_SIZE_POWER,
    )
}

/// Which way a fireball faces: on its first frame (`time == 0`) it turns
/// towards the mouse, compared with the player's screen position `cam_x`;
/// afterwards, and when the mouse is level with the player, it keeps its way.
pub fn fireball_facing(facing_right: bool, mouse_x: i32, cam_x: i32, time: u128) -> (r: bool)
    ensures
        r == if mouse_x > cam_x && time == 0 {
            true
        } else if mouse_x < cam_x && time == 0 {
            false
        } else {
            facing_right
        },
{
    if mouse_x > cam_x && time == 0 {
        true
    } else if mouse_x < cam_x && time == 0 {
        false
    } else {
        facing_right
    }
}

} // verus!
