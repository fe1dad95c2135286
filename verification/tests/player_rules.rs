use roguelike::collision::{clamp_value, resist, sort_collisions, CollisionDecider, Direction};
use roguelike::items::{PowerType, ProjectileType, WeaponType};
use roguelike::player::{HitOutcome, Player, PowerAction};
use roguelike::rect::{Point, Rect};

fn cd(dir: Direction, dist: i32) -> CollisionDecider {
    CollisionDecider::new(dir, dist)
}

#[test]
fn collision_decider_new_keeps_fields() {
    let c = CollisionDecider::new(Direction::Left, 17);
    assert_eq!(c.dir, Direction::Left);
    assert_eq!(c.dist, 17);
}

#[test]
fn resist_values() {
    assert_eq!(resist(5, 0), -1);
    assert_eq!(resist(-5, 0), 1);
    assert_eq!(resist(0, 0), 0);
    assert_eq!(resist(5, 3), 3);
    assert_eq!(resist(0, -2), -2);
}

#[test]
fn resist_moves_towards_zero() {
    for v in [-3, -1, 1, 3] {
        let after = v + resist(v, 0);
        assert!(after.abs() < v.abs());
        assert_eq!(after.signum() * v.signum() >= 0, true);
    }
}

#[test]
fn clamp_value_cases() {
    assert_eq!(clamp_value(150, 0, 100), 100);
    assert_eq!(clamp_value(-5, 0, 100), 0);
    assert_eq!(clamp_value(42, 0, 100), 42);
}

#[test]
fn sort_collisions_is_stable() {
    let v = vec![
        cd(Direction::Up, 5),
        cd(Direction::Left, 2),
        cd(Direction::Down, 5),
        cd(Direction::Right, 2),
        cd(Direction::NoDir, 1),
    ];
    let s = sort_collisions(&v);
    assert_eq!(
        s,
        vec![
            cd(Direction::NoDir, 1),
            cd(Direction::Left, 2),
            cd(Direction::Right, 2),
            cd(Direction::Up, 5),
            cd(Direction::Down, 5),
        ]
    );
}

#[test]
fn new_player_defaults() {
    let p = Player::new();
    assert_eq!(p.get_hp(), 30);
    assert_eq!(p.get_mana(), 4);
    assert_eq!(p.get_coins(), 0);
    assert_eq!(p.get_power(), PowerType::NoPower);
    assert_eq!(p.weapon, WeaponType::Sword);
    assert_eq!(p.get_weapon(), WeaponType::Sword);
    assert!(!p.can_pickup_weapon());
    assert_eq!((p.x_vel(), p.y_vel(), p.x_delta(), p.y_delta()), (0, 0, 0, 0));
    assert_eq!((p.width(), p.height()), (64, 64));
    assert_eq!(p.src(), Rect::new(0, 0, 64, 64));
    assert_eq!(p.get_cam_pos(), Rect::new(0, 0, 64, 64));
    assert_eq!(p.get_attack_box(), Rect::new(0, 0, 64, 64));
    assert!(!p.get_attacking() && !p.get_shielded() && !p.can_pickup() && !p.can_pickup_shop());
    assert!(!p.facing_right && !p.is_firing && !p.god_mode);
    assert_eq!(p.get_shop_price(), 0);
    assert!(!p.is_dead());
}

#[test]
fn setters_and_getters_round_trip() {
    let mut p = Player::new();
    p.set_x_vel(3);
    p.set_y_vel(-4);
    p.set_x_delta(1);
    p.set_y_delta(-1);
    assert_eq!((p.x_vel(), p.y_vel(), p.x_delta(), p.y_delta()), (3, -4, 1, -1));
    p.set_power(PowerType::Dash);
    assert_eq!(p.get_power(), PowerType::Dash);
    p.set_can_pickup(true);
    p.set_can_pickup_shop(true);
    p.set_shop_price(12);
    assert!(p.can_pickup() && p.can_pickup_shop());
    assert_eq!(p.get_shop_price(), 12);
}

#[test]
fn frame_display_cells() {
    let mut p = Player::new();
    p.get_frame_display(1);
    assert_eq!(p.src(), Rect::new(0, 0, 64, 64));
    p.get_frame_display(5);
    assert_eq!(p.src(), Rect::new(64, 64, 64, 64));
    p.get_frame_display(0);
    assert_eq!(p.src(), Rect::new(128, 192, 64, 64));
    p.get_frame_display(11);
    assert_eq!(p.src(), Rect::new(64, 192, 64, 64));
}

#[test]
fn frame_display_repeats_every_twelve() {
    let mut p = Player::new();
    let mut q = Player::new();
    for t in 0..30u128 {
        p.get_frame_display(t);
        q.get_frame_display(t + 12);
        assert_eq!(p.src(), q.src());
    }
}

#[test]
fn pos_and_cam_pos() {
    let mut p = Player::new();
    assert_eq!(p.pos(100, 200), Rect::new(100, 200, 48, 48));
    p.set_cam_pos(100, 200, 30, 40);
    assert_eq!(p.get_cam_pos(), Rect::new(62, 152, 64, 64));
}

#[test]
fn attack_box_faces_the_player_side() {
    let mut p = Player::new();
    p.set_attack_box(100, 50);
    assert_eq!(p.get_attack_box(), Rect::new(4, 50, 96, 64));
    p.facing_right = true;
    p.set_attack_box(100, 50);
    assert_eq!(p.get_attack_box(), Rect::new(164, 50, 96, 64));
}

#[test]
fn attack_respects_cooldown() {
    let mut p = Player::new();
    assert!(!p.attack(100, 0, 0));
    assert!(!p.get_attacking());
    assert!(p.attack(300, 10, 20));
    assert!(p.get_attacking());
    assert_eq!(p.get_attack_box(), Rect::new(-86, 20, 96, 64));
}

#[test]
fn fire_spends_mana_by_type() {
    let mut p = Player::new();
    p.fire(ProjectileType::Fireball);
    assert_eq!(p.get_mana(), 3);
    assert!(p.is_firing);
    p.fire(ProjectileType::Bullet);
    assert_eq!(p.get_mana(), 1);
    p.fire(ProjectileType::Shield);
    assert_eq!(p.get_mana(), -3);
}

#[test]
fn mana_use_and_restore() {
    let mut p = Player::new();
    p.use_mana(3);
    assert_eq!(p.get_mana(), 1);
    assert!(!p.restore_mana(999));
    assert_eq!(p.get_mana(), 1);
    assert!(p.restore_mana(1000));
    assert_eq!(p.get_mana(), 2);
    p.use_mana(-2);
    assert_eq!(p.get_mana(), 4);
    assert!(!p.restore_mana(5000));
    assert_eq!(p.get_mana(), 4);
}

#[test]
fn shield_and_dash_cost_mana() {
    let mut p = Player::new();
    p.set_shielded(true);
    assert!(p.get_shielded());
    assert_eq!(p.get_mana(), 1);
    p.set_dash_timer();
    assert_eq!(p.get_mana(), -3);
}

#[test]
fn minus_hp_plain_hit() {
    let mut p = Player::new();
    let out = p.minus_hp(7, 1000);
    assert_eq!(out, HitOutcome { damaged: true, shield_broken: false });
    assert_eq!(p.get_hp(), 23);
}

#[test]
fn minus_hp_invincible_and_god_mode() {
    let mut p = Player::new();
    let out = p.minus_hp(7, 10);
    assert_eq!(out, HitOutcome { damaged: false, shield_broken: false });
    assert_eq!(p.get_hp(), 30);
    p.god_mode = true;
    let out = p.minus_hp(7, 5000);
    assert!(!out.damaged);
    assert_eq!(p.get_hp(), 30);
}

#[test]
fn minus_hp_shield_absorbs_five() {
    let mut p = Player::new();
    p.set_shielded(true);
    let out = p.minus_hp(8, 1000);
    assert_eq!(out, HitOutcome { damaged: true, shield_broken: true });
    assert_eq!(p.get_hp(), 27);
    assert!(!p.get_shielded());
    assert_eq!(p.get_mana(), -2);
}

#[test]
fn minus_hp_to_zero_is_dead() {
    let mut p = Player::new();
    p.minus_hp(30, 900);
    assert_eq!(p.get_hp(), 0);
    assert!(p.is_dead());
}

#[test]
fn set_get_invincible_threshold() {
    let mut p = Player::new();
    assert!(p.set_get_invincible(799));
    assert!(!p.set_get_invincible(800));
}

#[test]
fn healing_is_capped() {
    let mut p = Player::new();
    p.minus_hp(20, 1000);
    p.plus_hp(5);
    assert_eq!(p.get_hp(), 15);
    p.plus_hp(100);
    assert_eq!(p.get_hp(), 30);
    p.upgrade_hp(10);
    p.plus_hp(3);
    assert_eq!(p.get_hp(), 33);
}

#[test]
fn coins_round_trip() {
    let mut p = Player::new();
    p.add_coins(25);
    assert_eq!(p.get_coins(), 25);
    p.sub_coins(25);
    assert_eq!(p.get_coins(), 0);
}

#[test]
fn collect_col_sides() {
    let mut p = Player::new();
    let other = Rect::new(0, 0, 64, 64);
    // player above the obstacle
    let pp = Rect::new(0, -40, 48, 48);
    assert_eq!(p.collect_col(pp, pp.center(), other, 9).dir, Direction::Down);
    // player left of the obstacle
    let pp = Rect::new(-40, 10, 48, 48);
    assert_eq!(p.collect_col(pp, pp.center(), other, 9).dir, Direction::Right);
    // player below the obstacle
    let pp = Rect::new(0, 60, 48, 48);
    assert_eq!(p.collect_col(pp, pp.center(), other, 9).dir, Direction::Up);
    // player right of the obstacle
    let pp = Rect::new(60, 10, 48, 48);
    let c = p.collect_col(pp, Point::new(84, 34), other, 12);
    assert_eq!(c.dir, Direction::Left);
    assert_eq!(c.dist, 12);
}

#[test]
fn resolve_col_nearest_first() {
    let mut p = Player::new();
    p.set_x_vel(30);
    p.set_y_vel(-150);
    p.resolve_col(&vec![cd(Direction::Right, 10), cd(Direction::Up, 3)]);
    assert_eq!((p.x_vel(), p.y_vel()), (30, 0));
}

#[test]
fn resolve_col_empty_leaves_velocity() {
    let mut p = Player::new();
    p.set_x_vel(-7);
    p.set_y_vel(8);
    p.resolve_col(&vec![]);
    assert_eq!((p.x_vel(), p.y_vel()), (-7, 8));
}

#[test]
fn resolve_col_third_collision_counts() {
    let mut p = Player::new();
    p.set_x_vel(20);
    p.set_y_vel(-20);
    p.resolve_col(&vec![cd(Direction::Up, 1), cd(Direction::Up, 2), cd(Direction::Right, 3)]);
    assert_eq!((p.x_vel(), p.y_vel()), (0, 0));
}

#[test]
fn resolve_col_left_uses_second_nearest() {
    let mut p = Player::new();
    p.set_x_vel(-20);
    p.set_y_vel(-20);
    p.resolve_col(&vec![cd(Direction::Left, 1), cd(Direction::Up, 2), cd(Direction::Down, 3)]);
    assert_eq!((p.x_vel(), p.y_vel()), (0, 0));
}

#[test]
fn resolve_col_ignores_opposite_side() {
    let mut p = Player::new();
    p.set_x_vel(5);
    p.set_y_vel(50);
    p.resolve_col(&vec![cd(Direction::Down, 1), cd(Direction::Left, 2), cd(Direction::Up, 3)]);
    assert_eq!((p.x_vel(), p.y_vel()), (5, 0));
}

#[test]
fn resolve_col_caps_bounce() {
    let mut p = Player::new();
    p.set_x_vel(-500);
    p.set_y_vel(0);
    p.resolve_col(&vec![cd(Direction::Right, 1)]);
    assert_eq!(p.x_vel(), -100);
}

#[test]
fn update_velocity_normal_and_dash() {
    let mut p = Player::new();
    p.set_x_vel(4);
    p.set_x_delta(0);
    p.set_y_vel(0);
    p.set_y_delta(3);
    p.update_velocity(2, (-10, 10), 0);
    assert_eq!((p.x_delta(), p.y_delta()), (-1, 3));
    assert_eq!((p.x_vel(), p.y_vel()), (2, 2));
    let mut q = Player::new();
    q.set_power(PowerType::Dash);
    q.set_x_delta(9);
    q.update_velocity(2, (-5, 5), 1000);
    assert_eq!(q.x_vel(), 5);
    let mut r = Player::new();
    r.set_power(PowerType::Dash);
    r.set_x_delta(9);
    r.update_velocity(2, (-5, 5), 1001);
    assert_eq!(r.x_vel(), 2);
}

#[test]
fn update_status_ends_attack_and_restores_mana() {
    let mut p = Player::new();
    p.facing_right = true;
    assert!(p.attack(400, 0, 0));
    p.use_mana(2);
    p.is_firing = true;
    let restored = p.update_status(10, 20, 100, 100, 0, 2000);
    assert!(restored);
    assert!(p.get_attacking());
    assert!(p.is_firing);
    assert_eq!(p.get_attack_box(), Rect::new(74, 20, 96, 64));
    assert_eq!(p.get_mana(), 3);
    let restored = p.update_status(10, 20, 301, 301, 0, 10);
    assert!(!restored);
    assert!(!p.get_attacking());
    assert!(!p.is_firing);
    assert_eq!(p.get_attack_box(), Rect::new(10, 20, 1, 1));
}

#[test]
fn toggle_god_mode_twice() {
    let mut p = Player::new();
    assert!(!p.toggle_god_mode(250));
    assert!(!p.god_mode);
    assert!(p.toggle_god_mode(251));
    assert!(p.god_mode);
    assert!(p.toggle_god_mode(300));
    assert!(!p.god_mode);
}

#[test]
fn use_power_actions() {
    let mut p = Player::new();
    assert_eq!(p.use_power(), PowerAction::NoAction);
    p.set_power(PowerType::Slimeball);
    assert_eq!(p.use_power(), PowerAction::Fire(ProjectileType::Bullet));
    assert_eq!(p.get_mana(), 2);
    assert_eq!(p.use_power(), PowerAction::NoAction);
    p.is_firing = false;
    p.set_power(PowerType::Shield);
    assert_eq!(p.use_power(), PowerAction::NoAction);
    p.use_mana(-1);
    assert_eq!(p.use_power(), PowerAction::Shield);
    assert!(p.get_shielded());
    assert_eq!(p.get_mana(), 0);
    p.set_power(PowerType::Fireball);
    assert_eq!(p.use_power(), PowerAction::NoAction);
    p.use_mana(-4);
    p.set_power(PowerType::Dash);
    assert_eq!(p.use_power(), PowerAction::Dash);
    assert_eq!(p.get_mana(), 0);
}

#[test]
fn weapon_setters_round_trip() {
    let mut p = Player::new();
    p.set_weapon(WeaponType::Spear);
    assert_eq!(p.get_weapon(), WeaponType::Spear);
    p.set_can_pickup_weapon(true);
    assert!(p.can_pickup_weapon());
}

#[test]
fn resolve_col_ignores_recording_order() {
    let c = vec![cd(Direction::Left, 4), cd(Direction::Up, 1), cd(Direction::Right, 9), cd(Direction::Down, 2)];
    let c2 = vec![cd(Direction::Right, 9), cd(Direction::Down, 2), cd(Direction::Up, 1), cd(Direction::Left, 4)];
    let mut p = Player::new();
    let mut q = Player::new();
    for (x, y) in [(-50, 60), (30, -30), (0, 0), (200, -200)] {
        p.set_x_vel(x);
        p.set_y_vel(y);
        q.set_x_vel(x);
        q.set_y_vel(y);
        p.resolve_col(&c);
        q.resolve_col(&c2);
        assert_eq!((p.x_vel(), p.y_vel()), (q.x_vel(), q.y_vel()));
    }
    assert_eq!(sort_collisions(&c), sort_collisions(&c2));
}
