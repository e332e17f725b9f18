use patclib::battle::Weapon;
use patclib::dice_value::DiceValue;
use patclib::player::{BattleAction, Player, PlayerResources};

fn res(stamina: u32, money: DiceValue, bullets: u32, batteries: DiceValue) -> PlayerResources {
    PlayerResources { stamina, money, bullets, batteries }
}

fn d(dice: u32, constant: i32) -> DiceValue {
    DiceValue { dice, constant }
}

#[test]
fn resources_afford_themselves() {
    let samples = [
        PlayerResources::default(),
        res(100, d(5, 0), 15, d(5, 0)),
        res(3, d(0, 7), 0, d(2, 4)),
        res(u32::MAX, d(1, 0), u32::MAX, d(0, 0)),
    ];
    for a in samples {
        assert!(a.could_afford(&a));
    }
}

#[test]
fn could_afford_compares_limits() {
    let me = res(10, d(2, 0), 5, d(0, 0));
    assert!(me.could_afford(&res(10, d(0, 12), 5, d(0, 0))));
    assert!(!me.could_afford(&res(10, d(0, 13), 5, d(0, 0))));
    assert!(!me.could_afford(&res(11, d(0, 0), 0, d(0, 0))));
    assert!(!me.could_afford(&res(0, d(0, 0), 6, d(0, 0))));
    assert!(!me.could_afford(&res(0, d(0, 0), 0, d(0, 1))));
}

#[test]
fn add_sums_every_resource() {
    let mut a = res(1, d(2, 3), 4, d(5, 6));
    a.add(res(10, d(1, 1), 2, d(0, -6)));
    assert_eq!(a, res(11, d(3, 4), 6, d(5, 0)));
}

#[test]
fn remove_with_given_drains() {
    let mut a = res(10, d(5, 0), 15, d(5, 0));
    let cost = res(2, d(0, 4), 3, d(0, 0));
    assert!(a.remove_with(cost, Some(d(3, 0)), Some(d(5, 0))));
    assert_eq!(a, res(8, d(3, 0), 12, d(5, 0)));
    // a drain that fell short leaves everything as it was
    let mut b = res(10, d(5, 0), 15, d(5, 0));
    assert!(b.remove_with(cost, None, Some(d(5, 0))));
    assert_eq!(b, res(10, d(5, 0), 15, d(5, 0)));
    // not affordable
    let mut c = res(1, d(5, 0), 15, d(5, 0));
    assert!(!c.remove_with(cost, Some(d(3, 0)), Some(d(5, 0))));
    assert_eq!(c, res(1, d(5, 0), 15, d(5, 0)));
}

#[test]
fn force_remove_with_given_drains() {
    let cost = res(2, d(0, 4), 3, d(0, 0));
    let mut a = res(10, d(5, 0), 15, d(5, 0));
    assert!(!a.force_remove_with(cost, None, Some(d(5, 0))));
    assert_eq!(a, res(8, d(0, 0), 12, d(5, 0)));
    let mut b = res(10, d(5, 0), 15, d(5, 0));
    assert!(b.force_remove_with(cost, Some(d(4, 0)), Some(d(5, 0))));
    assert_eq!(b, res(8, d(4, 0), 12, d(5, 0)));
    let mut c = res(0, d(5, 0), 15, d(5, 0));
    assert!(!c.force_remove_with(cost, Some(d(4, 0)), Some(d(5, 0))));
    assert_eq!(c, res(0, d(5, 0), 15, d(5, 0)));
}

#[test]
fn remove_of_fixed_cost_is_exact() {
    let mut a = res(100, d(5, 0), 15, d(5, 0));
    assert!(a.remove(res(0, d(0, 0), 1, d(0, 0))));
    assert_eq!(a, res(100, d(5, 0), 14, d(5, 0)));
    let mut b = res(100, d(5, 0), 15, d(5, 0));
    assert!(b.force_remove(res(3, d(0, 0), 1, d(0, 0))));
    assert_eq!(b, res(97, d(5, 0), 14, d(5, 0)));
}

#[test]
fn remove_rolls_dice_valued_cost() {
    for _ in 0..100 {
        let mut a = res(0, d(5, 0), 0, d(0, 0));
        let ok = a.remove(res(0, d(0, 10), 0, d(0, 0)));
        assert!(ok);
        // either the drain fell short and nothing changed, or dice were spent
        assert!(a == res(0, d(5, 0), 0, d(0, 0)) || (a.money.constant == 0 && a.money.dice <= 3));
    }
    let mut poor = res(0, d(0, 5), 7, d(0, 0));
    assert!(!poor.remove(res(0, d(0, 10), 0, d(0, 0))));
    assert_eq!(poor, res(0, d(0, 5), 7, d(0, 0)));
}

#[test]
fn new_player_and_weapons() {
    let p = Player::new();
    assert_eq!(p.resources, res(100, d(5, 0), 15, d(5, 0)));
    assert_eq!(p.weapons.len(), 3);
    assert_eq!(p.get_weapons().len(), 3);
    assert!(!p.is_dead());
    let mut broke = Player::new();
    broke.resources = res(100, d(0, 3), 0, d(0, 3));
    let usable: Vec<&str> = broke.get_weapons().iter().map(|w: &Weapon| w.name).collect();
    assert_eq!(usable, vec!["Knuckle sandwich"]);
}

#[test]
fn movable_locations_at_edges() {
    let mut p = Player::new();
    assert_eq!(p.get_movable_locations(), vec![("right", 1)]);
    p.position = 2;
    assert_eq!(p.get_movable_locations(), vec![("left", 1), ("right", 3)]);
    p.position = 3;
    assert_eq!(p.get_movable_locations(), vec![("left", 2)]);
}

#[test]
fn decisions_and_selections() {
    let mut p = Player::new();
    assert_eq!(p.drain_decision(), None);
    p.choose_option(2);
    assert_eq!(p.drain_decision(), Some(2));
    assert_eq!(p.drain_decision(), None);
    p.selected_action = Some(BattleAction::Attack);
    p.clear_selections();
    assert_eq!(p.selected_action, None);
    assert!(p.selected_weapon.is_none());
    assert_eq!(
        p.get_battle_actions(),
        vec![BattleAction::Attack, BattleAction::Move, BattleAction::Wait]
    );
    assert_eq!(BattleAction::Move.label(), "move");
    assert_eq!(BattleAction::Attack.label(), "attack");
    assert_eq!(BattleAction::Wait.label(), "wait");
    p.resources.stamina = 0;
    assert!(p.is_dead());
}
