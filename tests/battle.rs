use patclib::battle::{Battle, Enemy, Weapon, BATTLE_ARENA_WIDTH};
use patclib::combat::{
    advance_battle, enemy_act, hit, round_end, start_battle, BattleNote, BattleOutcome, BattlePrompt,
};
use patclib::dice_value::DiceValue;
use patclib::player::{BattleAction, Player, PlayerResources};

fn foe(name: &'static str, health: u32) -> Enemy {
    Enemy { name, health, ..Enemy::default() }
}

fn occupied(b: &Battle) -> usize {
    b.lanes.iter().filter(|l| l.is_some()).count()
}

fn names(b: &Battle) -> Vec<Option<&'static str>> {
    b.lanes.iter().map(|l| l.as_ref().map(|e| e.name)).collect()
}

#[test]
fn with_starts_empty() {
    let b = Battle::with(vec![foe("a", 1), foe("b", 1)]);
    assert_eq!(b.lanes.len(), BATTLE_ARENA_WIDTH as usize);
    assert_eq!(occupied(&b), 0);
    assert_eq!(b.unused_enemies.len(), 2);
    assert!(!b.is_over());
    assert!(Battle::with(vec![]).is_over());
}

#[test]
fn place_enemies_fills_from_the_back_of_the_queue() {
    let mut b = Battle::with(vec![foe("a", 1), foe("b", 1), foe("c", 1), foe("d", 1), foe("e", 1)]);
    b.place_enemies();
    assert_eq!(names(&b), vec![Some("e"), Some("d"), Some("c"), Some("b")]);
    assert_eq!(b.unused_enemies.len(), 1);
    assert_eq!(b.unused_enemies[0].name, "a");
}

#[test]
fn clean_out_dead_then_refill() {
    let mut b = Battle::with(vec![foe("a", 1), foe("b", 0), foe("c", 5)]);
    b.place_enemies();
    assert_eq!(names(&b), vec![Some("c"), Some("b"), Some("a"), None]);
    b.clean_out_dead();
    assert_eq!(names(&b), vec![Some("c"), None, Some("a"), None]);
    b.unused_enemies.push(foe("z", 3));
    b.place_enemies();
    assert_eq!(names(&b), vec![Some("c"), Some("z"), Some("a"), None]);
}

#[test]
fn lane_count_never_exceeds_width_or_supply() {
    let mut b = Battle::with((0..7).map(|i| foe("x", i % 2)).collect());
    let mut supply = occupied(&b) + b.unused_enemies.len();
    for round in 0..6 {
        let before = occupied(&b) + b.unused_enemies.len();
        if round % 2 == 0 {
            b.place_enemies();
        } else {
            b.clean_out_dead();
        }
        assert!(occupied(&b) <= BATTLE_ARENA_WIDTH as usize);
        assert!(occupied(&b) <= before);
        assert!(occupied(&b) + b.unused_enemies.len() <= supply);
        supply = occupied(&b) + b.unused_enemies.len();
    }
}

#[test]
fn targets_in_range() {
    let mut b = Battle::with(vec![foe("a", 1), foe("b", 1)]);
    b.place_enemies();
    // lane 0 holds "b", lane 1 holds "a", both at depth 3
    let near: Vec<&str> = b.get_valid_targets(0, 3).iter().map(|e| e.name).collect();
    assert_eq!(near, vec!["b"]);
    let far: Vec<&str> = b.get_valid_targets(0, 5).iter().map(|e| e.name).collect();
    assert_eq!(far, vec!["b", "a"]);
    assert_eq!(b.valid_target_lane(0, 5, 1), Some(1));
    assert_eq!(b.valid_target_lane(0, 5, 2), None);
    // |0 - 3 + 3| = 0 and |1 - 3 + 3| = 1
    assert_eq!(b.target_lanes(3, 0), vec![0]);
}

#[test]
fn strike_floors_health_at_zero() {
    let mut b = Battle::with(vec![foe("a", 10)]);
    b.place_enemies();
    assert!(!b.strike(0, 4));
    assert_eq!(b.lanes[0].as_ref().unwrap().health, 6);
    assert!(b.strike(0, 9));
    assert_eq!(b.lanes[0].as_ref().unwrap().health, 0);
}

fn remaining_health(b: &Battle) -> u32 {
    b.lanes.iter().flatten().map(|e| e.health).sum::<u32>()
        + b.unused_enemies.iter().map(|e| e.health).sum::<u32>()
}

#[test]
fn attacks_lower_remaining_health_until_over() {
    let mut b = Battle::with(vec![foe("a", 3), foe("b", 2), foe("c", 4), foe("d", 1), foe("e", 2)]);
    b.place_enemies();
    let mut rounds = 0;
    while !b.is_over() {
        let before = remaining_health(&b);
        let lane = b.lanes.iter().position(|l| l.is_some()).unwrap();
        hit(&mut b, lane, "stick", 1);
        assert!(remaining_health(&b) < before);
        rounds += 1;
    }
    assert_eq!(rounds, 12);
}

fn scenario() -> (Battle, Player) {
    let mut player = Player::new();
    player.resources = PlayerResources { stamina: 100, bullets: 15, ..PlayerResources::default() };
    player.weapons = vec![Weapon {
        name: "Sidearm",
        damage: DiceValue { dice: 1, constant: 0 },
        range: 5,
        cost: Some(PlayerResources { bullets: 1, ..PlayerResources::default() }),
    }];
    let wolf = Enemy {
        name: "Wolf",
        health: 10,
        weapons: vec![Weapon {
            name: "Jaws",
            damage: DiceValue { dice: 2, constant: 0 },
            ..Weapon::default()
        }],
        ..Enemy::default()
    };
    let mut battle = Battle::with(vec![wolf]);
    let prompt = start_battle(&mut battle, &player);
    assert!(matches!(prompt, BattlePrompt::Action(ref a) if a.len() == 3));
    (battle, player)
}

#[test]
fn one_attack_pays_one_bullet_and_rolls_damage() {
    let (mut battle, mut player) = scenario();
    assert!(battle.lanes[0].is_some());
    // pick "attack", then the only weapon, then the only target
    let step = advance_battle(&mut battle, &mut player, 0);
    assert!(matches!(step.outcome, BattleOutcome::Prompt(BattlePrompt::Weapon(ref w)) if w.len() == 1));
    let step = advance_battle(&mut battle, &mut player, 0);
    assert!(matches!(step.outcome, BattleOutcome::Prompt(BattlePrompt::Target(ref t)) if t.len() == 1));
    let step = advance_battle(&mut battle, &mut player, 0);
    assert_eq!(player.resources.bullets, 14);
    match step.notes[0] {
        BattleNote::Hit { damage, .. } => {
            assert!((1..=6).contains(&damage));
            assert_eq!(battle.lanes[0].as_ref().unwrap().health, 10 - damage);
        }
        ref other => panic!("unexpected note {:?}", other),
    }
    assert!(matches!(step.outcome, BattleOutcome::Prompt(BattlePrompt::Action(_))));
    assert!(player.selected_action.is_none());
}

#[test]
fn a_killing_blow_clears_the_lane_and_ends_the_battle() {
    let (mut battle, mut player) = scenario();
    assert!(player.resources.force_remove(PlayerResources { bullets: 1, ..PlayerResources::default() }));
    assert_eq!(player.resources.bullets, 14);
    let note = hit(&mut battle, 0, "Sidearm", 10);
    assert_eq!(note, BattleNote::Kill { weapon: "Sidearm", target: "Wolf" });
    assert!(battle.lanes[0].is_none());
    assert!(battle.is_over());
    assert!(matches!(round_end(&battle, &mut player), BattleOutcome::BattleOver));
}

#[test]
fn a_partial_blow_leaves_the_rest() {
    let (mut battle, _) = scenario();
    let note = hit(&mut battle, 0, "Sidearm", 4);
    assert_eq!(note, BattleNote::Hit { weapon: "Sidearm", damage: 4, target: "Wolf" });
    assert_eq!(battle.lanes[0].as_ref().unwrap().health, 6);
    assert!(!battle.is_over());
}

#[test]
fn enemies_close_in_then_attack() {
    let mut wolf = Enemy::default();
    let jaws = wolf.weapons[0];
    let mut stamina = 10;
    let note = enemy_act(&mut wolf, Some(jaws), 0, &mut stamina);
    assert_eq!(note, BattleNote::EnemyAdvances { enemy: "Mystery foe" });
    assert_eq!(wolf.position_y, 2);
    wolf.position_y = 1;
    let note = enemy_act(&mut wolf, Some(jaws), 4, &mut stamina);
    assert_eq!(note, BattleNote::EnemyHits { enemy: "Mystery foe", weapon: "Element of surprise", damage: 4 });
    assert_eq!(stamina, 6);
    assert_eq!(wolf.position_y, 3);
    wolf.position_y = 0;
    let note = enemy_act(&mut wolf, Some(jaws), 6, &mut stamina);
    assert_eq!(note, BattleNote::EnemyKillsPlayer { enemy: "Mystery foe", weapon: "Element of surprise" });
    assert_eq!(stamina, 0);
    let note = enemy_act(&mut wolf, None, 6, &mut stamina);
    assert_eq!(note, BattleNote::EnemyUnarmed { enemy: "Mystery foe" });
}

#[test]
fn round_end_checks_death_first() {
    let (battle, mut player) = scenario();
    player.resources.stamina = 0;
    assert!(matches!(round_end(&battle, &mut player), BattleOutcome::PlayerDead));
    player.resources.stamina = 5;
    player.selected_action = Some(BattleAction::Move);
    assert!(matches!(round_end(&battle, &mut player), BattleOutcome::Prompt(BattlePrompt::Action(_))));
    assert!(player.selected_action.is_none());
}

#[test]
fn moving_and_waiting_end_the_round() {
    let (mut battle, mut player) = scenario();
    let step = advance_battle(&mut battle, &mut player, 1);
    assert!(matches!(step.outcome, BattleOutcome::Prompt(BattlePrompt::Location(ref l)) if l == &vec![("right", 1)]));
    let step = advance_battle(&mut battle, &mut player, 0);
    assert_eq!(player.position, 1);
    assert_eq!(step.notes.len(), 1);
    let step = advance_battle(&mut battle, &mut player, 2);
    assert_eq!(step.notes.len(), 1);
    assert!(player.resources.stamina <= 100);
}

#[test]
fn no_target_in_range_asks_again() {
    let (mut battle, mut player) = scenario();
    player.weapons[0].range = 0;
    advance_battle(&mut battle, &mut player, 0);
    let step = advance_battle(&mut battle, &mut player, 0);
    assert_eq!(step.notes, vec![BattleNote::NobodyInRange]);
    assert!(matches!(step.outcome, BattleOutcome::Prompt(BattlePrompt::Action(_))));
    assert!(player.selected_action.is_none());
}
