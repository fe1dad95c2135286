//! Picking things up: dropped powers and weapons, shop wares and coins.

use vstd::prelude::*;
use crate::config::{CAM_H, CAM_W, PICKUP_DELAY, TILE_SIZE};
use crate::items::{PowerType, ShopItems, WeaponType};
use crate::player::{healed_hp, Player, PlayerView};
use crate::rect::{check_collision, rects_collide, Rect, RectView};

verus! {

/// A power dropped by an enemy.
#[derive(Clone, Copy, Debug, PartialEq, Eq, Structural)]
pub struct PowerDrop {
    pub pos: Rect,
    pub power_type: PowerType,
    pub collected: bool,
}

/// A slot of a shop: where it lies, what it sells, whether it was bought,
/// and its price.
#[derive(Clone, Copy, Debug, PartialEq, Eq, Structural)]
pub struct ShopSlot {
    pub pos: Rect,
    pub item: ShopItems,
    pub bought: bool,
    pub price: u32,
}

/// A coin lying in a level.
#[derive(Clone, Copy, Debug, PartialEq, Eq, Structural)]
pub struct Coin {
    pub pos: Rect,
    pub value: u32,
    pub collected: bool,
}

/// The box of the shop slot placed on map cell `spawn` (row, column).
pub open spec fn shop_slot_box(spawn: (usize, usize)) -> RectView {
    RectView::from_args(
        (#[verifier::truncate] (spawn.1 as i32)) * TILE_SIZE - (CAM_W - TILE_SIZE) / 2,
        (#[verifier::truncate] (spawn.0 as i32)) * TILE_SIZE - (CAM_H - TILE_SIZE) / 2,
        TILE_SIZE as int,
        TILE_SIZE as int,
    )
}

/// The box of the shop slot placed on map cell `spawn` (row, column).
pub fn shop_slot_rect(spawn: (usize, usize)) -> (r: Rect)
    requires
        i32::MIN <= (#[verifier::truncate] (spawn.1 as i32)) * TILE_SIZE <= i32::MAX,
        i32::MIN <= (#[verifier::truncate] (spawn.0 as i32)) * TILE_SIZE <= i32::MAX,
        i32::MIN <= (#[verifier::truncate] (spawn.1 as i32)) * TILE_SIZE - (CAM_W - TILE_SIZE) / 2 <= i32::MAX,
        i32::MIN <= (#[verifier::truncate] (spawn.0 as i32)) * TILE_SIZE - (CAM_H - TILE_SIZE) / 2 <= i32::MAX,
    ensures
        r@ == shop_slot_box(spawn),
{
    Rect::new(
        (#[verifier::truncate] (spawn.1 as i32)) * TILE_SIZE as i32 - (CAM_W as i32 - TILE_SIZE as i32) / 2,
        (#[verifier::truncate] (spawn.0 as i32)) * TILE_SIZE as i32 - (CAM_H as i32 - TILE_SIZE as i32) / 2,
        TILE_SIZE,
        TILE_SIZE,
    )
}

/// A drop that the player's box `p` touches and that is still there.
pub open spec fn power_reachable(d: PowerDrop, p: RectView) -> bool {
    rects_collide(p, d.pos@) && !d.collected
}

/// Picks up the first dropped power that the player's box `p_pos` touches,
/// unless the last pickup was less than `PICKUP_DELAY` milliseconds ago
/// (`pickup_elapsed`): the drop is collected and its power replaces the
/// player's. Returns the index picked up, in which case the pickup timer
/// restarts.
pub fn pickup_power(player: &mut Player, drops: &mut Vec<PowerDrop>, p_pos: &Rect, pickup_elapsed: u128) -> (picked: Option<usize>)
    ensures
        final(drops)@.len() == old(drops)@.len(),
        match picked {
            Some(k) => {
                &&& pickup_elapsed > PICKUP_DELAY
                &&& k < old(drops)@.len()
                &&& power_reachable(old(drops)@[k as int], p_pos@)
                &&& forall|j: int| 0 <= j < k ==> !power_reachable(#[trigger] old(drops)@[j], p_pos@)
                &&& final(drops)@ == old(drops)@.update(
                    k as int,
                    PowerDrop { collected: true, ..old(drops)@[k as int] },
                )
                &&& final(player)@ == if old(drops)@[k as int].power_type == PowerType::NoPower {
                    old(player)@
                } else {
                    PlayerView { power: old(drops)@[k as int].power_type, ..old(player)@ }
                }
            },
            None => {
                &&& (pickup_elapsed <= PICKUP_DELAY || forall|j: int|
                    0 <= j < old(drops)@.len() ==> !power_reachable(#[trigger] old(drops)@[j], p_pos@))
                &&& final(drops)@ == old(drops)@
                &&& final(player)@ == old(player)@
            },
        },
{
    let n = drops.len();
    let mut i: usize = 0;
    while i < n
        invariant
            n == drops@.len(),
            i <= n,
            drops@ == old(drops)@,
            player@ == old(player)@,
            pickup_elapsed > PICKUP_DELAY ==> forall|j: int| 0 <= j < i ==> !power_reachable(#[trigger] old(drops)@[j], p_pos@),
        decreases n - i,
    {
        let d = drops[i];
        if check_collision(p_pos, &d.pos) && !d.collected && pickup_elapsed > PICKUP_DELAY {
            drops.set(i, PowerDrop { collected: true, ..d });
            match d.power_type {
                PowerType::Fireball => {
                    player.set_power(PowerType::Fireball);
                },
                PowerType::Slimeball => {
                    player.set_power(PowerType::Slimeball);
                },
                PowerType::Shield => {
                    player.set_power(PowerType::Shield);
                },
                PowerType::Dash => {
                    player.set_power(PowerType::Dash);
                },
                _ => {},
            }
            return Some(i);
        }
        i = i + 1;
    }
    None
}

/// A shop slot that is still for sale, that the player's box `p` touches,
/// and that the player's `coins` pay for.
pub open spec fn slot_buyable(s: ShopSlot, p: RectView, coins: int) -> bool {
    !s.bought && rects_collide(p, s.pos@) && (coins >= s.price || s.bought)
}

/// The first slot from `i` on that `slot_buyable`; `None` when there is none.
pub open spec fn first_buyable(slots: Seq<ShopSlot>, p: RectView, coins: int, i: int) -> Option<int>
    decreases slots.len() - i,
{
    if i >= slots.len() || i < 0 {
        None
    } else if slot_buyable(slots[i], p, coins) {
        Some(i)
    } else {
        first_buyable(slots, p, coins, i + 1)
    }
}

/// The slot that a purchase takes: the first buyable one, unless the last
/// pickup was less than `PICKUP_DELAY` milliseconds ago.
pub open spec fn shop_choice(slots: Seq<ShopSlot>, p: RectView, coins: int, pickup_elapsed: u128) -> Option<int> {
    if pickup_elapsed > PICKUP_DELAY {
        first_buyable(slots, p, coins, 0)
    } else {
        None
    }
}

/// The player after buying `item` for `price`: the price is paid, powers
/// replace the held one, a health upgrade raises the maximum health by ten
/// and heals ten, a health potion heals ten, a weapon replaces the held
/// one; an empty slot takes the price and gives nothing.
pub open spec fn after_purchase(p: PlayerView, item: ShopItems, price: int) -> PlayerView {
    let paid = PlayerView { coins: p.coins - price, ..p };
    match item {
        ShopItems::Fireball => PlayerView { power: PowerType::Fireball, ..paid },
        ShopItems::Slimeball => PlayerView { power: PowerType::Slimeball, ..paid },
        ShopItems::Shield => PlayerView { power: PowerType::Shield, ..paid },
        ShopItems::Dash => PlayerView { power: PowerType::Dash, ..paid },
        ShopItems::HealthUpgrade => PlayerView {
            max_hp: paid.max_hp + 10,
            hp: healed_hp(paid.hp, paid.max_hp + 10, 10),
            ..paid
        },
        ShopItems::Health => PlayerView { hp: healed_hp(paid.hp, paid.max_hp, 10), ..paid },
        ShopItems::Sword => PlayerView { weapon: WeaponType::Sword, ..paid },
        ShopItems::Spear => PlayerView { weapon: WeaponType::Spear, ..paid },
        ShopItems::Nothing => paid,
    }
}

/// The arithmetic of buying `item` stays within `u32`.
pub open spec fn purchase_fits(p: PlayerView, item: ShopItems) -> bool {
    match item {
        ShopItems::HealthUpgrade => p.max_hp + 10 <= u32::MAX && p.hp + 10 <= u32::MAX,
        ShopItems::Health => p.hp + 10 <= u32::MAX,
        _ => true,
    }
}

proof fn lemma_first_buyable(slots: Seq<ShopSlot>, p: RectView, coins: int, i: int)
    requires
        0 <= i,
    ensures
        first_buyable(slots, p, coins, i) matches Some(k) ==> i <= k < slots.len() && slot_buyable(slots[k], p, coins)
            && forall|j: int| i <= j < k ==> !slot_buyable(#[trigger] slots[j], p, coins),
        first_buyable(slots, p, coins, i) is None ==> forall|j: int|
            i <= j < slots.len() ==> !slot_buyable(#[trigger] slots[j], p, coins),
    decreases slots.len() - i,
{
    if i < slots.len() && !slot_buyable(slots[i], p, coins) {
        lemma_first_buyable(slots, p, coins, i + 1);
    }
}

/// The slots after slot `k` was bought: it is sold out, unless it sells
/// nothing, in which case it stays for sale.
pub open spec fn slots_after_purchase(slots: Seq<ShopSlot>, k: int) -> Seq<ShopSlot> {
    if slots[k].item == ShopItems::Nothing {
        slots
    } else {
        slots.update(k, ShopSlot { bought: true, ..slots[k] })
    }
}

/// Buys from the shop slot that the player stands on (see `shop_choice`):
/// the player pays and gets the ware (see `after_purchase`), and the slot is
/// sold out (see `slots_after_purchase`). Returns the slot bought, in which
/// case the pickup timer restarts.
pub fn buy_from_shop(player: &mut Player, slots: &mut Vec<ShopSlot>, p_pos: &Rect, pickup_elapsed: u128) -> (bought: Option<usize>)
    requires
        shop_choice(old(slots)@, p_pos@, old(player)@.coins, pickup_elapsed) matches Some(k) ==> purchase_fits(
            old(player)@,
            old(slots)@[k].item,
        ),
    ensures
        bought matches Some(k) ==> shop_choice(old(slots)@, p_pos@, old(player)@.coins, pickup_elapsed) == Some(k as int),
        bought is None ==> shop_choice(old(slots)@, p_pos@, old(player)@.coins, pickup_elapsed) is None,
        match bought {
            Some(k) => {
                &&& final(slots)@ == slots_after_purchase(old(slots)@, k as int)
                &&& final(player)@ == after_purchase(
                    old(player)@,
                    old(slots)@[k as int].item,
                    old(slots)@[k as int].price as int,
                )
            },
            None => final(slots)@ == old(slots)@ && final(player)@ == old(player)@,
        },
{
    proof {
        lemma_first_buyable(slots@, p_pos@, player@.coins, 0);
    }
    let n = slots.len();
    let mut i: usize = 0;
    while i < n
        invariant
            n == slots@.len(),
            i <= n,
            slots@ == old(slots)@,
            player@ == old(player)@,
            pickup_elapsed > PICKUP_DELAY ==> first_buyable(slots@, p_pos@, player@.coins, 0)
                == first_buyable(slots@, p_pos@, player@.coins, i as int),
            shop_choice(old(slots)@, p_pos@, old(player)@.coins, pickup_elapsed) matches Some(k) ==> purchase_fits(
                old(player)@,
                old(slots)@[k].item,
            ),
        decreases n - i,
    {
        let s = slots[i];
        if s.bought {
            i = i + 1;
            continue;
        }
        if check_collision(p_pos, &s.pos) && pickup_elapsed > PICKUP_DELAY && (player.get_coins() >= s.price
            || s.bought == true) {
            proof {
                lemma_first_buyable(slots@, p_pos@, player@.coins, i as int);
            }
            player.sub_coins(s.price);
            match s.item {
                ShopItems::Fireball => {
                    player.set_power(PowerType::Fireball);
                    slots.set(i, ShopSlot { bought: true, ..s });
                },
                ShopItems::Slimeball => {
                    player.set_power(PowerType::Slimeball);
                    slots.set(i, ShopSlot { bought: true, ..s });
                },
                ShopItems::Shield => {
                    player.set_power(PowerType::Shield);
                    slots.set(i, ShopSlot { bought: true, ..s });
                },
                ShopItems::Dash => {
                    player.set_power(PowerType::Dash);
                    slots.set(i, ShopSlot { bought: true, ..s });
                },
                ShopItems::Sword => {
                    player.set_weapon(WeaponType::Sword);
                    slots.set(i, ShopSlot { bought: true, ..s });
                },
                ShopItems::Spear => {
                    player.set_weapon(WeaponType::Spear);
                    slots.set(i, ShopSlot { bought: true, ..s });
                },
                ShopItems::HealthUpgrade => {
                    if s.bought == false {
                        player.upgrade_hp(10);
                        player.plus_hp(10);
                        slots.set(i, ShopSlot { bought: true, ..s });
                    }
                },
                ShopItems::Health => {
                    player.plus_hp(10);
                    slots.set(i, ShopSlot { bought: true, ..s });
                },
                _ => {},
            }
            return Some(i);
        }
        i = i + 1;
    }
    proof {
        lemma_first_buyable(slots@, p_pos@, player@.coins, n as int);
    }
    None
}

/// The first slot from `i` on that is for sale and that the player's box
/// `p` touches; `None` when there is none.
pub open spec fn first_touched_slot(slots: Seq<ShopSlot>, p: RectView, i: int) -> Option<int>
    decreases slots.len() - i,
{
    if i >= slots.len() || i < 0 {
        None
    } else if !slots[i].bought && rects_collide(p, slots[i].pos@) {
        Some(i)
    } else {
        first_touched_slot(slots, p, i + 1)
    }
}

/// Whether the player can buy something, and the price shown: the first slot
/// for sale that the player touches decides, once `PICKUP_DELAY`
/// milliseconds have passed since the last pickup; an empty slot offers
/// nothing.
pub open spec fn shop_offer(slots: Seq<ShopSlot>, p: RectView, pickup_elapsed: u128) -> (bool, int) {
    if pickup_elapsed > PICKUP_DELAY {
        match first_touched_slot(slots, p, 0) {
            Some(k) => if slots[k].item == ShopItems::Nothing {
                (false, 0)
            } else {
                (true, slots[k].price as int)
            },
            None => (false, 0),
        }
    } else {
        (false, 0)
    }
}

/// Whether some dropped power that is still there, and is a power, lies
/// under the player's box `p`.
pub open spec fn power_offer(drops: Seq<PowerDrop>, p: RectView) -> bool {
    exists|j: int|
        0 <= j < drops.len() && power_reachable(#[trigger] drops[j], p) && drops[j].power_type
            != PowerType::NoPower
}

proof fn lemma_first_touched_slot(slots: Seq<ShopSlot>, p: RectView, i: int)
    requires
        0 <= i,
    ensures
        first_touched_slot(slots, p, i) matches Some(k) ==> i <= k < slots.len(),
    decreases slots.len() - i,
{
    if i < slots.len() && !(!slots[i].bought && rects_collide(p, slots[i].pos@)) {
        lemma_first_touched_slot(slots, p, i + 1);
    }
}

/// Tells the player what it could pick up where it stands: a dropped power
/// (see `power_offer`), a dropped weapon (see `weapon_offer`) and a shop ware
/// with its price (see `shop_offer`).
pub fn update_pickup_flags(
    player: &mut Player,
    drops: &Vec<PowerDrop>,
    weapons: &Vec<WeaponDrop>,
    slots: &Vec<ShopSlot>,
    p_pos: &Rect,
    pickup_elapsed: u128,
)
    ensures
        final(player)@ == (PlayerView {
            can_pickup: power_offer(drops@, p_pos@),
            can_pickup_weapon: weapon_offer(weapons@, p_pos@),
            can_pickup_shop: shop_offer(slots@, p_pos@, pickup_elapsed).0,
            shop_price: shop_offer(slots@, p_pos@, pickup_elapsed).1,
            ..old(player)@
        }),
{
    let mut can_pickup = false;
    let n = drops.len();
    for i in 0..n
        invariant
            n == drops@.len(),
            can_pickup == exists|j: int|
                0 <= j < i && power_reachable(#[trigger] drops@[j], p_pos@) && drops@[j].power_type
                    != PowerType::NoPower,
    {
        let d = drops[i];
        if check_collision(p_pos, &d.pos) {
            if !d.collected {
                match d.power_type {
                    PowerType::NoPower => {},
                    _ => {
                        can_pickup = true;
                    },
                }
            }
        }
        proof {
            if power_reachable(d, p_pos@) && d.power_type != PowerType::NoPower {
                assert(power_reachable(drops@[i as int], p_pos@));
            }
        }
    }
    player.set_can_pickup(can_pickup);
    let mut can_pickup_weapon = false;
    let nw = weapons.len();
    for i in 0..nw
        invariant
            nw == weapons@.len(),
            can_pickup_weapon == exists|j: int|
                0 <= j < i && rects_collide(p_pos@, #[trigger] weapons@[j].pos@),
    {
        if check_collision(p_pos, &weapons[i].pos) {
            can_pickup_weapon = true;
        }
        proof {
            if rects_collide(p_pos@, weapons@[i as int].pos@) {
                assert(rects_collide(p_pos@, weapons@[i as int].pos@));
            }
        }
    }
    player.set_can_pickup_weapon(can_pickup_weapon);
    let mut can_pickup_shop = false;
    let mut price: u32 = 0;
    let m = slots.len();
    let mut i: usize = 0;
    proof {
        lemma_first_touched_slot(slots@, p_pos@, 0);
    }
    while i < m
        invariant_except_break
            !can_pickup_shop,
            price == 0,
        invariant
            m == slots@.len(),
            i <= m,
            pickup_elapsed > PICKUP_DELAY ==> first_touched_slot(slots@, p_pos@, 0) == first_touched_slot(
                slots@,
                p_pos@,
                i as int,
            ),
        ensures
            (can_pickup_shop, price as int) == shop_offer(slots@, p_pos@, pickup_elapsed),
        decreases m - i,
    {
        let s = slots[i];
        if s.bought {
            i = i + 1;
            continue;
        }
        if check_collision(p_pos, &s.pos) && pickup_elapsed > PICKUP_DELAY {
            match s.item {
                ShopItems::Nothing => {},
                _ => {
                    can_pickup_shop = true;
                    price = s.price;
                },
            }
            break;
        }
        i = i + 1;
    }
    player.set_can_pickup_shop(can_pickup_shop);
    player.set_shop_price(price);
}

/// The coins gained by collecting the first `n` coins that the player's box
/// `p` touches and that are still there.
pub open spec fn coin_gain(coins: Seq<Coin>, p: RectView, n: int) -> int
    decreases n,
{
    if n <= 0 {
        0
    } else {
        coin_gain(coins, p, n - 1) + if rects_collide(p, coins[n - 1].pos@) && !coins[n - 1].collected {
            coins[n - 1].value as int
        } else {
            0
        }
    }
}

proof fn lemma_coin_gain_monotone(coins: Seq<Coin>, p: RectView, a: int, b: int)
    requires
        0 <= a <= b,
    ensures
        coin_gain(coins, p, a) <= coin_gain(coins, p, b),
    decreases b - a,
{
    if a < b {
        lemma_coin_gain_monotone(coins, p, a, b - 1);
    }
}

/// Collects every coin that the player's box `p_pos` touches and that is
/// still there: its value goes to the player.
pub fn collect_coins(player: &mut Player, coins: &mut Vec<Coin>, p_pos: &Rect)
    requires
        old(player)@.coins + coin_gain(old(coins)@, p_pos@, old(coins)@.len() as int) <= u32::MAX,
    ensures
        final(coins)@.len() == old(coins)@.len(),
        final(coins)@ == coins_after(old(coins)@, p_pos@),
        final(player)@ == (PlayerView {
            coins: old(player)@.coins + coin_gain(old(coins)@, p_pos@, old(coins)@.len() as int),
            ..old(player)@
        }),
{
    let n = coins.len();
    let ghost start = coins@;
    for i in 0..n
        invariant
            n == coins@.len(),
            n == old(coins)@.len(),
            forall|j: int| i <= j < n ==> #[trigger] coins@[j] == old(coins)@[j],
            forall|j: int|
                0 <= j < i ==> #[trigger] coins@[j] == (Coin {
                    collected: old(coins)@[j].collected || rects_collide(p_pos@, old(coins)@[j].pos@),
                    ..old(coins)@[j]
                }),
            player@ == (PlayerView {
                coins: old(player)@.coins + coin_gain(old(coins)@, p_pos@, i as int),
                ..old(player)@
            }),
            old(player)@.coins + coin_gain(old(coins)@, p_pos@, n as int) <= u32::MAX,
    {
        let c = coins[i];
        proof {
            lemma_coin_gain_monotone(old(coins)@, p_pos@, i + 1, n as int);
        }
        if check_collision(p_pos, &c.pos) {
            if !c.collected {
                coins.set(i, Coin { collected: true, ..c });
                player.add_coins(c.value);
            }
        }
    }
    assert(coins@ =~= coins_after(start, p_pos@));
}

/// Every ware costs exactly its price and hands over what it is named for:
/// a power ware gives that power, a weapon ware that weapon, a health
/// potion heals ten points up to the maximum, an upgrade raises the maximum
/// by ten and heals ten; nothing else about the player changes.
pub proof fn lemma_purchase_gives_ware(p: PlayerView, price: int)
    ensures
        forall|item: ShopItems| #[trigger] after_purchase(p, item, price).coins == p.coins - price,
        after_purchase(p, ShopItems::Fireball, price) == (PlayerView { coins: p.coins - price, power: PowerType::Fireball, ..p }),
        after_purchase(p, ShopItems::Slimeball, price) == (PlayerView { coins: p.coins - price, power: PowerType::Slimeball, ..p }),
        after_purchase(p, ShopItems::Shield, price) == (PlayerView { coins: p.coins - price, power: PowerType::Shield, ..p }),
        after_purchase(p, ShopItems::Dash, price) == (PlayerView { coins: p.coins - price, power: PowerType::Dash, ..p }),
        after_purchase(p, ShopItems::Sword, price) == (PlayerView { coins: p.coins - price, weapon: WeaponType::Sword, ..p }),
        after_purchase(p, ShopItems::Spear, price) == (PlayerView { coins: p.coins - price, weapon: WeaponType::Spear, ..p }),
        after_purchase(p, ShopItems::Health, price) == (PlayerView {
            coins: p.coins - price,
            hp: if p.hp + 10 >= p.max_hp { p.max_hp } else { p.hp + 10 },
            ..p
        }),
        after_purchase(p, ShopItems::HealthUpgrade, price) == (PlayerView {
            coins: p.coins - price,
            max_hp: p.max_hp + 10,
            hp: if p.hp + 10 >= p.max_hp + 10 { p.max_hp + 10 } else { p.hp + 10 },
            ..p
        }),
        after_purchase(p, ShopItems::Nothing, price) == (PlayerView { coins: p.coins - price, ..p }),
{
}

/// A slot that sells something is sold out by its purchase, and no other
/// slot changes; a slot that sells nothing stays as it was.
pub proof fn lemma_purchase_sells_out(slots: Seq<ShopSlot>, k: int)
    requires
        0 <= k < slots.len(),
    ensures
        slots_after_purchase(slots, k).len() == slots.len(),
        forall|j: int| 0 <= j < slots.len() && j != k ==> #[trigger] slots_after_purchase(slots, k)[j] == slots[j],
        slots[k].item != ShopItems::Nothing ==> slots_after_purchase(slots, k)[k].bought,
        slots[k].item == ShopItems::Nothing ==> slots_after_purchase(slots, k)[k] == slots[k],
        slots_after_purchase(slots, k)[k].item == slots[k].item,
        slots_after_purchase(slots, k)[k].price == slots[k].price,
        slots_after_purchase(slots, k)[k].pos == slots[k].pos,
{
}

/// A dropped power is picked up at most once: a collected drop is out of reach.
pub proof fn lemma_collected_drop_out_of_reach(d: PowerDrop, p: RectView)
    requires
        d.collected,
    ensures
        !power_reachable(d, p),
{
}

/// A ware is sold at most once: a sold-out slot cannot be bought.
pub proof fn lemma_sold_out_slot(s: ShopSlot, p: RectView, coins: int)
    requires
        s.bought,
    ensures
        !slot_buyable(s, p, coins),
{
}

/// A purchase costs exactly the price, and keeps health and mana within
/// their maxima.
pub proof fn lemma_purchase_keeps_wf(p: PlayerView, item: ShopItems, price: int)
    requires
        p.wf(),
    ensures
        after_purchase(p, item, price).coins == p.coins - price,
        after_purchase(p, item, price).wf(),
{
}

/// The coins after `collect_coins`: those that the box `p` touches are collected.
pub open spec fn coins_after(coins: Seq<Coin>, p: RectView) -> Seq<Coin> {
    Seq::new(
        coins.len(),
        |j: int| Coin { collected: coins[j].collected || rects_collide(p, coins[j].pos@), ..coins[j] },
    )
}

proof fn lemma_coin_gain_zero(coins: Seq<Coin>, p: RectView, n: int)
    requires
        0 <= n <= coins.len(),
        forall|j: int| 0 <= j < coins.len() && rects_collide(p, coins[j].pos@) ==> #[trigger] coins[j].collected,
    ensures
        coin_gain(coins, p, n) == 0,
    decreases n,
{
    if n > 0 {
        lemma_coin_gain_zero(coins, p, n - 1);
    }
}

/// A coin is collected at most once: collecting again where nothing moved
/// gains nothing.
pub proof fn lemma_coins_collected_once(coins: Seq<Coin>, p: RectView)
    ensures
        coin_gain(coins_after(coins, p), p, coins.len() as int) == 0,
{
    let after = coins_after(coins, p);
    assert forall|j: int| 0 <= j < after.len() && rects_collide(p, after[j].pos@) implies #[trigger] after[j].collected by {
    }
    lemma_coin_gain_zero(after, p, coins.len() as int);
}

/// A weapon lying on the floor.
#[derive(Clone, Copy, Debug, PartialEq, Eq, Structural)]
pub struct WeaponDrop {
    pub pos: Rect,
    pub weapon_type: WeaponType,
}

/// Whether some weapon on the floor lies under the player's box `p`.
pub open spec fn weapon_offer(weapons: Seq<WeaponDrop>, p: RectView) -> bool {
    exists|j: int| 0 <= j < weapons.len() && rects_collide(p, #[trigger] weapons[j].pos@)
}

/// Picks up the first weapon on the floor that the player's box `p_pos`
/// touches, unless the last pickup was less than `PICKUP_DELAY` milliseconds
/// ago (`pickup_elapsed`): the player takes it and leaves the weapon it held
/// in its place. Returns the index picked up, in which case the pickup timer
/// restarts.
pub fn pickup_weapon(player: &mut Player, weapons: &mut Vec<WeaponDrop>, p_pos: &Rect, pickup_elapsed: u128) -> (picked: Option<usize>)
    ensures
        final(weapons)@.len() == old(weapons)@.len(),
        match picked {
            Some(k) => {
                &&& pickup_elapsed > PICKUP_DELAY
                &&& k < old(weapons)@.len()
                &&& rects_collide(p_pos@, old(weapons)@[k as int].pos@)
                &&& forall|j: int| 0 <= j < k ==> !rects_collide(p_pos@, #[trigger] old(weapons)@[j].pos@)
                &&& final(weapons)@ == old(weapons)@.update(
                    k as int,
                    WeaponDrop { weapon_type: old(player)@.weapon, ..old(weapons)@[k as int] },
                )
                &&& final(player)@ == (PlayerView { weapon: old(weapons)@[k as int].weapon_type, ..old(player)@ })
            },
            None => {
                &&& (pickup_elapsed <= PICKUP_DELAY || !weapon_offer(old(weapons)@, p_pos@))
                &&& final(weapons)@ == old(weapons)@
                &&& final(player)@ == old(player)@
            },
        },
{
    let n = weapons.len();
    let mut i: usize = 0;
    while i < n
        invariant
            n == weapons@.len(),
            i <= n,
            weapons@ == old(weapons)@,
            player@ == old(player)@,
            pickup_elapsed > PICKUP_DELAY ==> forall|j: int|
                0 <= j < i ==> !rects_collide(p_pos@, #[trigger] old(weapons)@[j].pos@),
        decreases n - i,
    {
        let w = weapons[i];
        if check_collision(p_pos, &w.pos) && pickup_elapsed > PICKUP_DELAY {
            let (held, on_floor) = swap_weapon(player.get_weapon(), w.weapon_type);
            weapons.set(i, WeaponDrop { weapon_type: on_floor, ..w });
            player.set_weapon(held);
            return Some(i);
        }
        i = i + 1;
    }
    None
}

/// Picking up a weapon from the floor swaps it with the one held: returns
/// the weapon now held and the one now on the floor.
pub fn swap_weapon(held: WeaponType, on_floor: WeaponType) -> (r: (WeaponType, WeaponType))
    ensures
        r == (on_floor, held),
{
    let new_floor = match held {
        WeaponType::Sword => WeaponType::Sword,
        WeaponType::Spear => WeaponType::Spear,
    };
    let new_held = match on_floor {
        WeaponType::Sword => WeaponType::Sword,
        WeaponType::Spear => WeaponType::Spear,
    };
    (new_held, new_floor)
}

} // verus!
