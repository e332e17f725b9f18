use patclib::battle::{Battle, Enemy};
use patclib::dice_value::DiceValue;
use patclib::encounter::{Encounter, EncounterDecision, EncounterEvent, EncounterPhase, Script};
use patclib::encounters::{
    chase, electric_sheep, encounters, game_over, game_start, get_random_encounter, merchant,
    test_encounter, town, wolf_fight,
};
use patclib::player::PlayerResources;

fn line(ev: &EncounterEvent) -> &'static str {
    match ev {
        EncounterEvent::Line(l) => l,
        other => panic!("expected a line, got {:?}", other),
    }
}

#[test]
fn loop_visits_each_phase_then_resumes_once() {
    let mut s = Script::new();
    let a = s.add(EncounterPhase::Line("A"));
    let b = s.add(EncounterPhase::Line("B"));
    let k = s.add(EncounterPhase::Break);
    let l = s.add(EncounterPhase::Loop(vec![a, b, k]));
    let mut e = s.finish(vec![l]);
    let mut res = PlayerResources::default();
    assert!(matches!(e.step(&mut res), EncounterEvent::Silent));
    assert_eq!(e.stack.len(), 2);
    assert_eq!(line(&e.step(&mut res)), "A");
    assert_eq!(line(&e.step(&mut res)), "B");
    assert!(matches!(e.step(&mut res), EncounterEvent::Silent));
    assert_eq!(e.stack.len(), 1);
    assert_eq!(e.stack_pointers, vec![1]);
    assert!(matches!(e.step(&mut res), EncounterEvent::Finished));
    assert!(matches!(e.step(&mut res), EncounterEvent::Finished));
}

#[test]
fn loop_without_break_wraps_around() {
    let mut s = Script::new();
    let a = s.add(EncounterPhase::Line("A"));
    let b = s.add(EncounterPhase::Line("B"));
    let l = s.add(EncounterPhase::Loop(vec![a, b]));
    let mut e = s.finish(vec![l]);
    let mut res = PlayerResources::default();
    e.step(&mut res);
    let seen: Vec<&str> = (0..5).map(|_| line(&e.step(&mut res))).collect();
    assert_eq!(seen, vec!["A", "B", "A", "B", "A"]);
}

#[test]
fn trade_failure_keeps_bullets() {
    let mut s = Script::new();
    let t = s.add(EncounterPhase::Trade(
        "success",
        "failure",
        PlayerResources { money: DiceValue { dice: 0, constant: 10 }, ..PlayerResources::default() },
        PlayerResources { bullets: 6, ..PlayerResources::default() },
    ));
    let mut e = s.finish(vec![t]);
    let mut res = PlayerResources {
        money: DiceValue { dice: 0, constant: 5 },
        bullets: 3,
        ..PlayerResources::default()
    };
    assert_eq!(line(&e.step(&mut res)), "failure");
    assert_eq!(res.bullets, 3);
    assert_eq!(res.money, DiceValue { dice: 0, constant: 5 });
}

#[test]
fn trade_success_pays_and_rewards() {
    let mut s = Script::new();
    let t = s.add(EncounterPhase::Trade(
        "success",
        "failure",
        PlayerResources { money: DiceValue { dice: 0, constant: 10 }, ..PlayerResources::default() },
        PlayerResources { bullets: 6, ..PlayerResources::default() },
    ));
    let mut e = s.finish(vec![t]);
    let mut res = PlayerResources {
        money: DiceValue { dice: 0, constant: 12 },
        bullets: 3,
        ..PlayerResources::default()
    };
    assert_eq!(line(&e.step(&mut res)), "success");
    assert_eq!(res.bullets, 9);
}

#[test]
fn gain_and_lose() {
    let mut s = Script::new();
    let g = s.add(EncounterPhase::Gain("gain", PlayerResources { stamina: 5, ..PlayerResources::default() }));
    let l = s.add(EncounterPhase::Lose("lose", PlayerResources { stamina: 2, ..PlayerResources::default() }));
    let too_much = s.add(EncounterPhase::Lose("lose more", PlayerResources { stamina: 50, ..PlayerResources::default() }));
    let mut e = s.finish(vec![g, l, too_much]);
    let mut res = PlayerResources { stamina: 10, ..PlayerResources::default() };
    assert_eq!(line(&e.step(&mut res)), "gain");
    assert_eq!(res.stamina, 15);
    assert_eq!(line(&e.step(&mut res)), "lose");
    assert_eq!(res.stamina, 13);
    assert_eq!(line(&e.step(&mut res)), "lose more");
    assert_eq!(res.stamina, 13);
    let mut full = PlayerResources { stamina: u32::MAX, ..PlayerResources::default() };
    let mut s2 = Script::new();
    let g2 = s2.add(EncounterPhase::Gain("gain", PlayerResources { stamina: 1, ..PlayerResources::default() }));
    let mut e2 = s2.finish(vec![g2]);
    e2.step(&mut full);
    assert_eq!(full.stamina, u32::MAX);
}

#[test]
fn decision_blocks_until_answered() {
    let mut s = Script::new();
    let yes = s.add(EncounterPhase::Line("yes!"));
    let no = s.add(EncounterPhase::Line("no!"));
    let ask = s.add(EncounterPhase::Decision(EncounterDecision {
        prompt: "Well?",
        options: vec![("Yes", yes), ("No", no)],
    }));
    let after = s.add(EncounterPhase::Line("after"));
    let mut e = s.finish(vec![ask, after]);
    let mut res = PlayerResources::default();
    assert!(e.waiting_for_input());
    match e.step(&mut res) {
        EncounterEvent::Prompt { prompt, options } => {
            assert_eq!(prompt, "Well?");
            assert_eq!(options, vec!["Yes", "No"]);
        }
        other => panic!("expected a prompt, got {:?}", other),
    }
    assert!(e.waiting_for_input());
    assert_eq!(line(&e.decide(1, &mut res)), "no!");
    assert!(!e.waiting_for_input());
    assert_eq!(line(&e.step(&mut res)), "after");
    assert!(matches!(e.step(&mut res), EncounterEvent::Finished));
}

#[test]
fn battle_phase_hands_over_a_copy() {
    let mut s = Script::new();
    let f = s.add(EncounterPhase::Battle(Battle::with(vec![Enemy::default()])));
    let mut e = s.finish(vec![f]);
    let mut res = PlayerResources::default();
    assert!(e.waiting_for_input());
    match e.step(&mut res) {
        EncounterEvent::StartBattle(b) => assert_eq!(b.unused_enemies.len(), 1),
        other => panic!("expected a battle, got {:?}", other),
    }
    assert!(matches!(e.step(&mut res), EncounterEvent::Finished));
}

#[test]
fn break_in_the_outermost_frame_ends_the_encounter() {
    let mut s = Script::new();
    let k = s.add(EncounterPhase::Break);
    let a = s.add(EncounterPhase::Line("never"));
    let mut e = s.finish(vec![k, a]);
    let mut res = PlayerResources::default();
    assert!(matches!(e.step(&mut res), EncounterEvent::Silent));
    assert!(matches!(e.step(&mut res), EncounterEvent::Finished));
}

#[test]
fn catalog_scripts_start_as_expected() {
    let mut res = PlayerResources::default();
    assert_eq!(encounters().len(), 6);
    assert_eq!(line(&game_start().step(&mut res)), "Welcome to the frontier. You are a cowboy in charge of a pupper");
    assert_eq!(line(&game_over().step(&mut res)), "Death comes to all. And did any of it matter in the end.");
    assert_eq!(line(&test_encounter().step(&mut res)), "This is a test encounter");
    assert_eq!(line(&wolf_fight().step(&mut res)), "Wolves attack!");
    assert_eq!(line(&electric_sheep().step(&mut res)), "A herd of electric sheep are barreling at you");
    assert_eq!(line(&merchant().step(&mut res)), "You see a merchant travelling down the road");
    assert_eq!(line(&chase().step(&mut res)), "A getaway car kicks up dust as it almost runs you over");
    assert_eq!(line(&town().step(&mut res)), "You arrive in a sleepy town");
}

#[test]
fn random_encounter_comes_from_the_catalog() {
    let firsts: Vec<&str> = encounters()
        .into_iter()
        .map(|mut e| line(&e.step(&mut PlayerResources::default())))
        .collect();
    for _ in 0..50 {
        let mut e: Encounter = get_random_encounter();
        let first = line(&e.step(&mut PlayerResources::default()));
        assert!(firsts.contains(&first));
    }
}

#[test]
fn town_visit_walks_nested_loops() {
    let mut e = town();
    let mut res = PlayerResources {
        stamina: 10,
        money: DiceValue { dice: 0, constant: 30 },
        ..PlayerResources::default()
    };
    assert_eq!(line(&e.step(&mut res)), "You arrive in a sleepy town");
    assert!(matches!(e.step(&mut res), EncounterEvent::Silent));
    assert!(matches!(e.step(&mut res), EncounterEvent::Prompt { .. }));
    // get a drink: enters the watering hole
    assert!(matches!(e.decide(0, &mut res), EncounterEvent::Silent));
    assert_eq!(line(&e.step(&mut res)), "You head to the closest hole in the wall, looking for a drink");
    assert!(matches!(e.step(&mut res), EncounterEvent::Silent));
    assert!(matches!(e.step(&mut res), EncounterEvent::Prompt { .. }));
    assert_eq!(line(&e.decide(0, &mut res)), "You feel like you were born yesterday");
    assert_eq!(res.stamina, 30);
    assert_eq!(res.money, DiceValue { dice: 0, constant: 30 });
    assert_eq!(line(&e.step(&mut res)), "You could stay here forever, maybe just one more day");
    assert!(matches!(e.step(&mut res), EncounterEvent::Prompt { .. }));
    // too steep: leaves the drinking loop, then the watering hole
    assert!(matches!(e.decide(1, &mut res), EncounterEvent::Silent));
    assert!(matches!(e.step(&mut res), EncounterEvent::Silent));
    assert!(matches!(e.step(&mut res), EncounterEvent::Prompt { .. }));
    // head out
    assert!(matches!(e.decide(2, &mut res), EncounterEvent::Silent));
    assert_eq!(line(&e.step(&mut res)), "This is a place worth visiting.");
    assert!(matches!(e.step(&mut res), EncounterEvent::Finished));
}
