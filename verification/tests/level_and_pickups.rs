use std::collections::HashSet;

use roguelike::combat::{melee_damage, projectile_hit, projectile_strike, ProjectileHit};
use roguelike::items::{PowerType, ShopItems, WeaponType};
use roguelike::level::{
    at_exit, next_floor, dev_crate_pos, dev_crate_pos_from, exit_rect, initial_rolls, plan_spawns, reroll_direction,
    roll_direction, starting_position, EnemyType, SpawnKind,
};
use roguelike::pickup::{
    buy_from_shop, collect_coins, pickup_power, pickup_weapon, WeaponDrop, shop_slot_rect, swap_weapon, update_pickup_flags, Coin,
    PowerDrop, ShopSlot,
};
use roguelike::player::{Player, ScanOrigin};
use roguelike::rect::Rect;
use roguelike::render::{
    object_screen_rect, shop_ware_rect, fireball_facing, shield_outline_rect, spear_placement, sword_placement, visible_tiles, TileKind,
};

fn empty_grid() -> Vec<Vec<i32>> {
    vec![vec![0; 60]; 60]
}

#[test]
fn plan_spawns_reads_codes_row_by_row() {
    let mut g = empty_grid();
    g[0][1] = 3;
    g[0][0] = 1;
    g[2][5] = 6;
    g[1][7] = 9;
    g[1][2] = 4;
    let s = plan_spawns(&g);
    assert_eq!(s.len(), 4);
    assert_eq!(s[0].kind, SpawnKind::Enemy(EnemyType::Melee));
    assert_eq!(s[0].pos, Rect::new(-608, -328, 64, 64));
    assert_eq!(s[1].kind, SpawnKind::Crate);
    assert_eq!(s[1].pos, Rect::new(64 - 608, -328, 64, 64));
    assert_eq!(s[2].kind, SpawnKind::Enemy(EnemyType::Skeleton));
    assert_eq!(s[2].pos, Rect::new(128 - 608, 64 - 328, 64, 64));
    assert_eq!(s[3].kind, SpawnKind::Enemy(EnemyType::Boss));
    assert_eq!(s[3].pos, Rect::new(320 - 608, 128 - 328, 256, 256));
}

#[test]
fn plan_spawns_all_kinds() {
    let mut g = empty_grid();
    for (w, code) in [1, 2, 3, 4, 5, 6].iter().enumerate() {
        g[10][w] = *code;
    }
    let kinds: Vec<SpawnKind> = plan_spawns(&g).iter().map(|s| s.kind).collect();
    assert_eq!(
        kinds,
        vec![
            SpawnKind::Enemy(EnemyType::Melee),
            SpawnKind::Enemy(EnemyType::Ranged),
            SpawnKind::Crate,
            SpawnKind::Enemy(EnemyType::Skeleton),
            SpawnKind::Enemy(EnemyType::Eyeball),
            SpawnKind::Enemy(EnemyType::Boss),
        ]
    );
}

#[test]
fn starting_position_formula() {
    assert_eq!(starting_position((3, 4)), (3 * 64 - 592, 4 * 64 - 312));
}

#[test]
fn exit_and_at_exit() {
    assert_eq!(exit_rect((10, 5)), Rect::new(640 - 608, 320 - 328, 64, 64));
    assert!(at_exit(32, -8, (10, 5)));
    assert!(at_exit(32 - 64, -8, (10, 5)));
    assert!(!at_exit(32 - 65, -8, (10, 5)));
}

#[test]
fn rolls_in_range() {
    for _ in 0..200 {
        let r = roll_direction();
        assert!((1..5).contains(&r));
    }
    let many: HashSet<i32> = (0..200).map(|_| roll_direction()).collect();
    assert!(many.len() > 1);
    let rolls = initial_rolls(50);
    assert_eq!(rolls.len(), 50);
    assert!(rolls.iter().all(|r| (1..5).contains(r)));
}

#[test]
fn reroll_only_when_due() {
    let mut rolls = vec![7, 8, 9];
    reroll_direction(&mut rolls, 1, 121, false);
    assert_eq!(rolls, vec![7, 8, 9]);
    reroll_direction(&mut rolls, 1, 240, false);
    assert_eq!((rolls[0], rolls[2]), (7, 9));
    assert!((1..5).contains(&rolls[1]));
    reroll_direction(&mut rolls, 2, 1, true);
    assert!((1..5).contains(&rolls[2]));
    assert_eq!(rolls[0], 7);
}

#[test]
fn dev_crate_positions() {
    assert_eq!(dev_crate_pos_from(500, 600, 3, 4), Rect::new(303, 404, 64, 64));
    let ys: HashSet<i32> = (0..200).map(|_| dev_crate_pos(500, 600).y()).collect();
    assert!(ys.len() > 1);
    for _ in 0..50 {
        let r = dev_crate_pos(500, 600);
        assert!(r.x() >= 301 && r.x() < 310);
        assert!(r.y() >= 400 && r.y() < 410);
        assert_eq!((r.width(), r.height()), (64, 64));
    }
}

fn drop_at(x: i32, power_type: PowerType, collected: bool) -> PowerDrop {
    PowerDrop { pos: Rect::new(x, 0, 48, 48), power_type, collected }
}

#[test]
fn pickup_power_first_reachable() {
    let mut p = Player::new();
    let mut drops = vec![
        drop_at(0, PowerType::Shield, true),
        drop_at(500, PowerType::Dash, false),
        drop_at(10, PowerType::Fireball, false),
        drop_at(20, PowerType::Slimeball, false),
    ];
    let p_pos = Rect::new(0, 0, 48, 48);
    assert_eq!(pickup_power(&mut p, &mut drops, &p_pos, 1000), None);
    assert_eq!(p.get_power(), PowerType::NoPower);
    assert_eq!(pickup_power(&mut p, &mut drops, &p_pos, 1001), Some(2));
    assert_eq!(p.get_power(), PowerType::Fireball);
    assert!(drops[2].collected && !drops[3].collected);
    assert_eq!(pickup_power(&mut p, &mut drops, &p_pos, 1001), Some(3));
    assert_eq!(p.get_power(), PowerType::Slimeball);
    assert_eq!(pickup_power(&mut p, &mut drops, &p_pos, 1001), None);
}

#[test]
fn pickup_no_power_drop_keeps_power() {
    let mut p = Player::new();
    p.set_power(PowerType::Dash);
    let mut drops = vec![drop_at(0, PowerType::NoPower, false)];
    assert_eq!(pickup_power(&mut p, &mut drops, &Rect::new(0, 0, 10, 10), 2000), Some(0));
    assert_eq!(p.get_power(), PowerType::Dash);
    assert!(drops[0].collected);
}

fn slot(x: i32, item: ShopItems, price: u32) -> ShopSlot {
    ShopSlot { pos: Rect::new(x, 0, 64, 64), item, bought: false, price }
}

#[test]
fn buy_from_shop_pays_and_sells_out() {
    let mut p = Player::new();
    p.add_coins(10);
    let mut slots = vec![slot(0, ShopItems::Dash, 20), slot(0, ShopItems::Fireball, 7), slot(900, ShopItems::Health, 1)];
    let p_pos = Rect::new(0, 0, 48, 48);
    assert_eq!(buy_from_shop(&mut p, &mut slots, &p_pos, 500), None);
    assert_eq!(buy_from_shop(&mut p, &mut slots, &p_pos, 1500), Some(1));
    assert_eq!(p.get_coins(), 3);
    assert_eq!(p.get_power(), PowerType::Fireball);
    assert!(slots[1].bought && !slots[0].bought);
    assert_eq!(buy_from_shop(&mut p, &mut slots, &p_pos, 1500), None);
    assert_eq!(p.get_coins(), 3);
}

#[test]
fn buy_health_upgrade_and_potion() {
    let mut p = Player::new();
    p.add_coins(30);
    p.minus_hp(15, 1000);
    let mut slots = vec![slot(0, ShopItems::HealthUpgrade, 10), slot(0, ShopItems::Health, 5)];
    let p_pos = Rect::new(0, 0, 48, 48);
    assert_eq!(buy_from_shop(&mut p, &mut slots, &p_pos, 1500), Some(0));
    assert_eq!(p.get_hp(), 25);
    assert_eq!(buy_from_shop(&mut p, &mut slots, &p_pos, 1500), Some(1));
    assert_eq!(p.get_hp(), 35);
    assert_eq!(p.get_coins(), 15);
    p.plus_hp(100);
    assert_eq!(p.get_hp(), 40);
}

#[test]
fn pickup_flags_report_offers() {
    let mut p = Player::new();
    let drops = vec![drop_at(0, PowerType::NoPower, false), drop_at(0, PowerType::Dash, true)];
    let slots = vec![slot(0, ShopItems::Spear, 9)];
    let p_pos = Rect::new(0, 0, 48, 48);
    update_pickup_flags(&mut p, &drops, &vec![], &slots, &p_pos, 2000);
    assert!(!p.can_pickup());
    assert!(p.can_pickup_shop());
    assert_eq!(p.get_shop_price(), 9);
    let drops = vec![drop_at(0, PowerType::Dash, false)];
    update_pickup_flags(&mut p, &drops, &vec![], &slots, &p_pos, 100);
    assert!(p.can_pickup());
    assert!(!p.can_pickup_shop());
    assert_eq!(p.get_shop_price(), 0);
    let empty = vec![slot(0, ShopItems::Nothing, 9), slot(0, ShopItems::Spear, 3)];
    update_pickup_flags(&mut p, &drops, &vec![], &empty, &p_pos, 2000);
    assert!(!p.can_pickup_shop());
    assert_eq!(p.get_shop_price(), 0);
}

#[test]
fn collect_coins_once() {
    let mut p = Player::new();
    let mut coins = vec![
        Coin { pos: Rect::new(0, 0, 16, 16), value: 5, collected: false },
        Coin { pos: Rect::new(999, 0, 16, 16), value: 7, collected: false },
        Coin { pos: Rect::new(10, 10, 16, 16), value: 3, collected: true },
        Coin { pos: Rect::new(20, 20, 16, 16), value: 2, collected: false },
    ];
    let p_pos = Rect::new(0, 0, 48, 48);
    collect_coins(&mut p, &mut coins, &p_pos);
    assert_eq!(p.get_coins(), 7);
    assert_eq!(coins.iter().map(|c| c.collected).collect::<Vec<_>>(), vec![true, false, true, true]);
    collect_coins(&mut p, &mut coins, &p_pos);
    assert_eq!(p.get_coins(), 7);
}

#[test]
fn shop_slot_rect_formula() {
    assert_eq!(shop_slot_rect((2, 3)), Rect::new(192 - 608, 128 - 328, 64, 64));
}

#[test]
fn swap_weapon_swaps() {
    assert_eq!(swap_weapon(WeaponType::Sword, WeaponType::Spear), (WeaponType::Spear, WeaponType::Sword));
    assert_eq!(swap_weapon(WeaponType::Spear, WeaponType::Spear), (WeaponType::Spear, WeaponType::Spear));
}

#[test]
fn combat_rules() {
    assert_eq!(melee_damage(WeaponType::Sword), 2);
    assert_eq!(melee_damage(WeaponType::Spear), 4);
    assert_eq!(projectile_hit(EnemyType::Skeleton, 5), ProjectileHit { knockback: false, damage: 2 });
    assert_eq!(projectile_hit(EnemyType::Boss, 5), ProjectileHit { knockback: true, damage: 5 });
    assert_eq!(projectile_strike(EnemyType::Eyeball, 3), Some(ProjectileHit { knockback: true, damage: 3 }));
    assert_eq!(projectile_strike(EnemyType::Boss, 3), None);
    assert_eq!(projectile_strike(EnemyType::Skeleton, 3), None);
}

#[test]
fn visible_tiles_layout() {
    let mut g = empty_grid();
    g[5][5] = 1;
    g[5][6] = 2;
    g[6][5] = 9;
    g[0][0] = 5;
    let o = ScanOrigin { h_off: 5, w_off: 5, x_rem: 10, y_rem: 20, px: 0, py: 0 };
    let t = visible_tiles(&g, o);
    assert_eq!(t.len(), 3);
    assert_eq!(t[0], (TileKind::Floor, Rect::new(-10, -20, 64, 64)));
    assert_eq!(t[1], (TileKind::Tile, Rect::new(54, -20, 64, 64)));
    assert_eq!(t[2], (TileKind::Downstairs, Rect::new(-10, 44, 64, 64)));
    let o = ScanOrigin { h_off: -3, w_off: -3, x_rem: 0, y_rem: 0, px: 0, py: 0 };
    let t = visible_tiles(&g, o);
    assert_eq!(
        t,
        vec![
            (TileKind::Moss, Rect::new(192, 192, 64, 64)),
            (TileKind::Floor, Rect::new(512, 512, 64, 64)),
            (TileKind::Tile, Rect::new(576, 512, 64, 64)),
            (TileKind::Downstairs, Rect::new(512, 576, 64, 64)),
        ]
    );
}

#[test]
fn wall_collisions_find_touching_walls() {
    let mut g = empty_grid();
    g[5][9] = 2;
    g[5][10] = 5;
    g[5][11] = 2;
    g[4][9] = 2;
    g[5][8] = 1;
    let p = Player::new();
    let o = ScanOrigin { h_off: 0, w_off: 0, x_rem: 0, y_rem: 0, px: 0, py: 0 };
    let hits = p.wall_collisions(&g, o);
    assert_eq!(hits, vec![Rect::new(-32, -8, 64, 64), Rect::new(32, -8, 64, 64)]);
}

#[test]
fn overlay_placements() {
    let cam = Rect::new(100, 200, 64, 64);
    assert_eq!(shield_outline_rect(cam, true), Rect::new(92, 184, 80, 80));
    assert_eq!(shield_outline_rect(cam, false), Rect::new(84, 184, 80, 80));
    let (r, pt) = sword_placement(cam, true);
    assert_eq!(r, Rect::new(164, 232, 80, 89));
    assert_eq!((pt.x(), pt.y()), (0, 32));
    let (r, pt) = sword_placement(cam, false);
    assert_eq!(r, Rect::new(20, 232, 80, 89));
    assert_eq!((pt.x(), pt.y()), (80, 32));
    let (r, _) = spear_placement(cam, true, -42);
    assert_eq!(r, Rect::new(122, 200, 112, 89));
    let (r, pt) = spear_placement(cam, false, -42);
    assert_eq!(r, Rect::new(30, 200, 112, 89));
    assert_eq!(pt.x(), 112);
}

#[test]
fn fireball_turns_once() {
    assert!(fireball_facing(false, 500, 100, 0));
    assert!(!fireball_facing(true, 50, 100, 0));
    assert!(fireball_facing(true, 100, 100, 0));
    assert!(!fireball_facing(false, 500, 100, 3));
}

#[test]
fn screen_rects() {
    assert_eq!(object_screen_rect(700, 400, 650, 300, 64), Rect::new(658, 428, 64, 64));
    assert_eq!(shop_ware_rect((2, 3), 100, 50), Rect::new(92, 78, 48, 48));
}

#[test]
fn buy_weapon_ware_hands_it_over() {
    let mut p = Player::new();
    p.add_coins(20);
    let mut slots = vec![slot(0, ShopItems::Spear, 8), slot(0, ShopItems::Sword, 8)];
    let p_pos = Rect::new(0, 0, 48, 48);
    assert_eq!(buy_from_shop(&mut p, &mut slots, &p_pos, 1500), Some(0));
    assert_eq!(p.get_weapon(), WeaponType::Spear);
    assert!(slots[0].bought);
    assert_eq!(buy_from_shop(&mut p, &mut slots, &p_pos, 1500), Some(1));
    assert_eq!(p.get_weapon(), WeaponType::Sword);
    assert_eq!(p.get_coins(), 4);
}

#[test]
fn buy_empty_slot_charges_and_stays_for_sale() {
    let mut p = Player::new();
    p.add_coins(10);
    let mut slots = vec![slot(0, ShopItems::Nothing, 4)];
    let p_pos = Rect::new(0, 0, 48, 48);
    assert_eq!(buy_from_shop(&mut p, &mut slots, &p_pos, 1500), Some(0));
    assert_eq!(p.get_coins(), 6);
    assert!(!slots[0].bought);
    assert_eq!(p.get_power(), PowerType::NoPower);
    assert_eq!(buy_from_shop(&mut p, &mut slots, &p_pos, 1500), Some(0));
    assert_eq!(p.get_coins(), 2);
}

#[test]
fn weapon_flag_and_pickup() {
    let mut p = Player::new();
    let p_pos = Rect::new(0, 0, 48, 48);
    let mut weapons = vec![
        WeaponDrop { pos: Rect::new(500, 0, 48, 48), weapon_type: WeaponType::Spear },
        WeaponDrop { pos: Rect::new(10, 0, 48, 48), weapon_type: WeaponType::Spear },
    ];
    update_pickup_flags(&mut p, &vec![], &weapons, &vec![], &p_pos, 0);
    assert!(p.can_pickup_weapon());
    update_pickup_flags(&mut p, &vec![], &vec![weapons[0]], &vec![], &p_pos, 0);
    assert!(!p.can_pickup_weapon());
    assert_eq!(pickup_weapon(&mut p, &mut weapons, &p_pos, 1000), None);
    assert_eq!(p.get_weapon(), WeaponType::Sword);
    assert_eq!(pickup_weapon(&mut p, &mut weapons, &p_pos, 1001), Some(1));
    assert_eq!(p.get_weapon(), WeaponType::Spear);
    assert_eq!(weapons[1].weapon_type, WeaponType::Sword);
    assert_eq!(weapons[0].weapon_type, WeaponType::Spear);
}

#[test]
fn next_floor_grows_maps_and_brings_the_boss() {
    assert_eq!(next_floor(1), (2, 91, false));
    assert_eq!(next_floor(2), (3, 121, false));
    assert_eq!(next_floor(3), (4, 151, true));
    assert_eq!(next_floor(0), (1, 61, false));
}
