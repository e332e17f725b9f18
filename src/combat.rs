//! A battle round: the player's picks, the attack, the enemies' turn, and the
//! check that ends the round.

use vstd::prelude::*;

use crate::battle::{
    lanes_health, lemma_attack_health_bound, lemma_health_update,
    after_attack, armed, lanes_armed, occupied, queue_armed, target_lanes, Battle, Enemy, Weapon,
};
use crate::chance::random_index;
use crate::player::{
    battle_actions, movable_positions, usable_weapons, BattleAction,
    Player, PlayerResources, lemma_usable_weapons_ok,
};

verus! {

/// Something that happened during a round, for the player to read.
#[derive(Debug, Clone, Copy, PartialEq, Eq)]
pub enum BattleNote {
    /// The player's weapon dealt damage and the target still stands.
    Hit { weapon: &'static str, damage: u32, target: &'static str },
    /// The player's weapon took the target's last health.
    Kill { weapon: &'static str, target: &'static str },
    /// The player could not pay for the chosen weapon.
    ResourcesRanDry,
    /// No enemy is in range of the chosen weapon.
    NobodyInRange,
    /// An enemy out of range came one step closer.
    EnemyAdvances { enemy: &'static str },
    /// An enemy's weapon dealt damage to the player.
    EnemyHits { enemy: &'static str, weapon: &'static str, damage: u32 },
    /// An enemy's weapon took the player's last stamina.
    EnemyKillsPlayer { enemy: &'static str, weapon: &'static str },
    /// An enemy without weapons did nothing.
    EnemyUnarmed { enemy: &'static str },
}

/// The options the player is asked to pick from.
#[derive(Debug)]
pub enum BattlePrompt {
    Action(Vec<BattleAction>),
    Weapon(Vec<Weapon>),
    Target(Vec<Enemy>),
    Location(Vec<(&'static str, u32)>),
}

/// How a step of the battle ended.
#[derive(Debug)]
pub enum BattleOutcome {
    /// The battle waits for the player to pick one of these options.
    Prompt(BattlePrompt),
    /// The player has no stamina left.
    PlayerDead,
    /// No enemy is left, in the lanes or queued.
    BattleOver,
}

/// What a step of the battle produced.
#[derive(Debug)]
pub struct BattleStep {
    pub notes: Vec<BattleNote>,
    pub outcome: BattleOutcome,
}

/// `outcome` asks for the action of a new round.
pub open spec fn prompts_action(outcome: BattleOutcome) -> bool {
    outcome matches BattleOutcome::Prompt(BattlePrompt::Action(a)) && a@ == battle_actions()
}

/// The round is over and `outcome` says how: the player is dead, the
/// battle is won, or a new round starts with the player's picks cleared.
pub open spec fn ends_round(b: Battle, p: Player, outcome: BattleOutcome) -> bool {
    &&& (outcome is PlayerDead <==> p.resources.stamina == 0)
    &&& (outcome is BattleOver <==> p.resources.stamina > 0 && occupied(b.lanes@) == 0
        && b.unused_enemies.len() == 0)
    &&& (outcome is Prompt ==> prompts_action(outcome) && p.selected_action is None
        && p.selected_weapon is None)
}

/// The number of options the player was last offered.
pub open spec fn options_offered(b: Battle, p: Player) -> nat {
    match p.selected_action {
        None => battle_actions().len(),
        Some(BattleAction::Move) => movable_positions(p.position).len(),
        Some(BattleAction::Attack) => match p.selected_weapon {
            None => usable_weapons(p.resources, p.weapons@).len(),
            Some(w) => target_lanes(b.lanes@, p.position, w.range).len(),
        },
        Some(BattleAction::Wait) => 0,
    }
}

/// The number of options the player was last offered, to check a pick
/// against.
pub fn options_count(battle: &Battle, player: &Player) -> (r: usize)
    ensures
        r == options_offered(*battle, *player),
{
    match player.selected_action {
        None => player.get_battle_actions().len(),
        Some(BattleAction::Move) => {
            let l = player.get_movable_locations();
            proof {
                assert(l@.map_values(|x: (&'static str, u32)| x.1).len() == l.len());
            }
            l.len()
        },
        Some(BattleAction::Attack) => match player.selected_weapon {
            None => player.get_weapons().len(),
            Some(w) => {
                let t = battle.target_lanes(player.position, w.range);
                proof {
                    assert(t@.map_values(|l: usize| l as int).len() == t.len());
                }
                t.len()
            },
        },
        Some(BattleAction::Wait) => 0,
    }
}

/// The battle the game is in.
#[derive(Debug)]
pub struct OngoingBattle(pub Battle);

/// What a weapon costs to use.
pub open spec fn cost_of(w: Weapon) -> PlayerResources {
    match w.cost {
        Some(c) => c,
        None => PlayerResources::empty(),
    }
}

/// `e` after acting with weapon `w`: out of range it comes one step closer,
/// in range it attacks and falls back two steps.
pub open spec fn enemy_after(e: Enemy, w: Weapon) -> Enemy {
    if e.position_y > w.range {
        Enemy { position_y: (e.position_y - 1) as u32, ..e }
    } else {
        Enemy {
            position_y: if e.position_y + 2 <= u32::MAX { (e.position_y + 2) as u32 } else { u32::MAX },
            ..e
        }
    }
}

/// The player's stamina after enemy `e` acts with weapon `w` rolling
/// `damage`; it stops at zero.
pub open spec fn stamina_after(e: Enemy, w: Weapon, damage: u32, stamina: u32) -> u32 {
    if e.position_y > w.range {
        stamina
    } else if damage >= stamina {
        0
    } else {
        (stamina - damage) as u32
    }
}

/// `new` is `old` having possibly moved in depth.
pub open spec fn kept_identity(new: Enemy, old: Enemy) -> bool {
    &&& new.name == old.name
    &&& new.health == old.health
    &&& new.weapons@ == old.weapons@
    &&& new.position_x == old.position_x
}

/// Enemy `enemy` acts with `weapon` (none when it has none), whose damage
/// rolled `damage`, against a player with `stamina`.
pub fn enemy_act(enemy: &mut Enemy, weapon: Option<Weapon>, damage: u32, stamina: &mut u32) -> (note: BattleNote)
    ensures
        match weapon {
            None => *final(enemy) == *old(enemy) && *final(stamina) == *old(stamina)
                && note == BattleNote::EnemyUnarmed { enemy: old(enemy).name },
            Some(w) => {
                &&& *final(enemy) == enemy_after(*old(enemy), w)
                &&& *final(stamina) == stamina_after(*old(enemy), w, damage, *old(stamina))
                &&& note == (if old(enemy).position_y > w.range {
                    BattleNote::EnemyAdvances { enemy: old(enemy).name }
                } else if damage >= *old(stamina) {
                    BattleNote::EnemyKillsPlayer { enemy: old(enemy).name, weapon: w.name }
                } else {
                    BattleNote::EnemyHits { enemy: old(enemy).name, weapon: w.name, damage }
                })
            },
        },
{
    match weapon {
        None => BattleNote::EnemyUnarmed { enemy: enemy.name },
        Some(w) => {
            if enemy.position_y > w.range {
                enemy.position_y = enemy.position_y - 1;
                BattleNote::EnemyAdvances { enemy: enemy.name }
            } else {
                enemy.position_y = enemy.position_y.saturating_add(2);
                if damage >= *stamina {
                    *stamina = 0;
                    BattleNote::EnemyKillsPlayer { enemy: enemy.name, weapon: w.name }
                } else {
                    *stamina = *stamina - damage;
                    BattleNote::EnemyHits { enemy: enemy.name, weapon: w.name, damage }
                }
            }
        },
    }
}

/// The note for enemy `e` acting with weapon `w` whose damage rolled
/// `damage`, against a player with `stamina`.
pub open spec fn enemy_note(e: Enemy, w: Weapon, damage: u32, stamina: u32) -> BattleNote {
    if e.position_y > w.range {
        BattleNote::EnemyAdvances { enemy: e.name }
    } else if damage >= stamina {
        BattleNote::EnemyKillsPlayer { enemy: e.name, weapon: w.name }
    } else {
        BattleNote::EnemyHits { enemy: e.name, weapon: w.name, damage }
    }
}

/// Enemy `e` acting on its pick: the index of its weapon and the damage that
/// weapon rolled. An enemy without weapons stays as it is. Gives the enemy
/// after acting, the player's stamina after it, and the note.
pub open spec fn acted(e: Enemy, pick: (usize, u32), stamina: u32) -> (Enemy, u32, BattleNote) {
    if e.weapons.len() == 0 {
        (e, stamina, BattleNote::EnemyUnarmed { enemy: e.name })
    } else {
        let w = e.weapons[pick.0 as int];
        (enemy_after(e, w), stamina_after(e, w, pick.1, stamina), enemy_note(e, w, pick.1, stamina))
    }
}

/// A pick enemy `e` can make: one of its weapons, and, when it is in range to
/// attack, a damage that weapon can roll.
pub open spec fn pick_ok(e: Enemy, pick: (usize, u32)) -> bool {
    e.weapons.len() > 0 ==> {
        &&& pick.0 < e.weapons.len()
        &&& e.position_y <= e.weapons[pick.0 as int].range ==> e.weapons[pick.0 as int].damage.floor()
            <= pick.1 <= e.weapons[pick.0 as int].damage.limit()
    }
}

/// One pick for each lane, each one its enemy can make.
pub open spec fn picks_ok(lanes: Seq<Option<Enemy>>, picks: Seq<(usize, u32)>) -> bool {
    &&& picks.len() == lanes.len()
    &&& forall|i: int| 0 <= i < lanes.len() ==> (#[trigger] lanes[i] matches Some(e) ==> pick_ok(e, picks[i]))
}

/// The lanes, stamina and notes after the enemies of the first `n` lanes act
/// on `picks`, in lane order.
pub open spec fn enemy_turn(lanes: Seq<Option<Enemy>>, stamina: u32, picks: Seq<(usize, u32)>, n: nat) -> (
    Seq<Option<Enemy>>,
    u32,
    Seq<BattleNote>,
)
    decreases n,
{
    if n == 0 {
        (lanes, stamina, Seq::empty())
    } else {
        let prev = enemy_turn(lanes, stamina, picks, (n - 1) as nat);
        match lanes[n - 1] {
            Some(e) => {
                let a = acted(e, picks[n - 1], prev.1);
                (prev.0.update(n - 1, Some(a.0)), a.1, prev.2.push(a.2))
            },
            None => prev,
        }
    }
}

/// The enemies of `lanes`, facing a player with `stamina`, acted and left
/// `lanes2`, `stamina2` and `notes`: for some picks they could make, each in
/// lane order, one note per enemy.
pub open spec fn enemies_acted(
    lanes: Seq<Option<Enemy>>,
    stamina: u32,
    lanes2: Seq<Option<Enemy>>,
    stamina2: u32,
    notes: Seq<BattleNote>,
) -> bool {
    exists|picks: Seq<(usize, u32)>|
        picks_ok(lanes, picks) && #[trigger] enemy_turn(lanes, stamina, picks, lanes.len()) == (
            lanes2,
            stamina2,
            notes,
        )
}

proof fn lemma_turn_prefix(
    lanes: Seq<Option<Enemy>>,
    stamina: u32,
    p1: Seq<(usize, u32)>,
    p2: Seq<(usize, u32)>,
    n: nat,
)
    requires
        n <= p1.len(),
        n <= p2.len(),
        forall|j: int| 0 <= j < n ==> p1[j] == p2[j],
    ensures
        enemy_turn(lanes, stamina, p1, n) == enemy_turn(lanes, stamina, p2, n),
    decreases n,
{
    if n > 0 {
        lemma_turn_prefix(lanes, stamina, p1, p2, (n - 1) as nat);
    }
}

/// The enemies' turn: each enemy in a lane, in lane order, picks one of its
/// weapons at random and acts with it, rolling its damage when it attacks.
/// A note for each enemy is appended to `notes`.
pub fn enemy_phase(battle: &mut Battle, stamina: &mut u32, notes: &mut Vec<BattleNote>)
    requires
        old(battle).armed(),
    ensures
        final(battle).armed(),
        final(battle).unused_enemies@ == old(battle).unused_enemies@,
        final(battle).lanes.len() == old(battle).lanes.len(),
        enemies_acted(
            old(battle).lanes@,
            *old(stamina),
            final(battle).lanes@,
            *final(stamina),
            final(notes)@.skip(old(notes).len() as int),
        ),
        forall|i: int|
            0 <= i < old(battle).lanes.len() ==> match (#[trigger] old(battle).lanes@[i]) {
                None => final(battle).lanes@[i] is None,
                Some(e) => final(battle).lanes@[i] matches Some(n) && kept_identity(n, e),
            },
        *final(stamina) <= *old(stamina),
        final(notes).len() >= old(notes).len(),
        final(notes)@.take(old(notes).len() as int) == old(notes)@,
{
    let ghost lanes0 = battle.lanes@;
    let ghost stamina0 = *stamina;
    let ghost n0 = notes.len() as int;
    let ghost mut picks: Seq<(usize, u32)> = Seq::empty();
    let mut i: usize = 0;
    assert(notes@.skip(n0) =~= Seq::<BattleNote>::empty());
    while i < battle.lanes.len()
        invariant
            i <= battle.lanes.len() == old(battle).lanes.len(),
            lanes0 == old(battle).lanes@,
            stamina0 == *old(stamina),
            n0 == old(notes).len(),
            battle.unused_enemies@ == old(battle).unused_enemies@,
            queue_armed(battle.unused_enemies@),
            lanes_armed(battle.lanes@),
            forall|j: int|
                0 <= j < old(battle).lanes.len() ==> match (#[trigger] old(battle).lanes@[j]) {
                    None => battle.lanes@[j] is None,
                    Some(e) => battle.lanes@[j] matches Some(n) && kept_identity(n, e) && (j >= i
                        ==> n == e),
                },
            *stamina <= *old(stamina),
            notes@.take(old(notes).len() as int) == old(notes)@,
            notes.len() >= old(notes).len(),
            picks.len() == i,
            forall|j: int| 0 <= j < i ==> (#[trigger] lanes0[j] matches Some(e) ==> pick_ok(e, picks[j])),
            (battle.lanes@, *stamina, notes@.skip(n0)) == enemy_turn(lanes0, stamina0, picks, i as nat),
        decreases battle.lanes.len() - i,
    {
        let ghost before = battle.lanes@;
        let ghost notes_before = notes@;
        let ghost stamina_before = *stamina;
        let ghost mut pick: (usize, u32) = (0, 0);
        assert(lanes_armed(before) ==> (before[i as int] matches Some(e) ==> armed(e)));
        match &mut battle.lanes[i] {
            Some(e) => {
                let choice = random_index(e.weapons.len());
                let weapon = match choice {
                    Some(k) => Some(e.weapons[k]),
                    None => None,
                };
                let damage = match weapon {
                    Some(w) => if e.position_y <= w.range {
                        w.damage.roll()
                    } else {
                        0
                    },
                    None => 0,
                };
                proof {
                    pick = (
                        match choice {
                            Some(k) => k,
                            None => 0,
                        },
                        damage,
                    );
                }
                let note = enemy_act(e, weapon, damage, stamina);
                notes.push(note);
            },
            None => {},
        }
        proof {
            let picks2 = picks.push(pick);
            lemma_turn_prefix(lanes0, stamina0, picks, picks2, i as nat);
            assert(picks2[i as int] == pick);
            if before[i as int] is Some {
                assert(notes@.skip(n0) =~= notes_before.skip(n0).push(notes@.last()));
            } else {
                assert(notes@ == notes_before);
            }
            assert(notes@.take(old(notes).len() as int) =~= old(notes)@) by {
                assert(notes_before.take(old(notes).len() as int) == old(notes)@);
            }
            assert forall|j: int| 0 <= j < battle.lanes.len() implies (#[trigger] battle.lanes@[j]
                matches Some(x) ==> armed(x)) by {
                if j != i {
                    assert(battle.lanes@[j] == before[j]);
                }
                assert(before[j] matches Some(x) ==> armed(x));
            }
            picks = picks2;
        }
        i = i + 1;
    }
}

/// The check that ends a round: the player's death first, then the end of
/// the battle; otherwise the player's picks are cleared and a new round asks
/// for an action.
pub fn round_end(battle: &Battle, player: &mut Player) -> (r: BattleOutcome)
    ensures
        ends_round(*battle, *final(player), r),
        r is Prompt ==> *final(player) == (Player {
            selected_action: None,
            selected_weapon: None,
            ..*old(player)
        }),
        !(r is Prompt) ==> *final(player) == *old(player),
{
    if player.is_dead() {
        BattleOutcome::PlayerDead
    } else if battle.is_over() {
        BattleOutcome::BattleOver
    } else {
        let actions = player.get_battle_actions();
        player.clear_selections();
        BattleOutcome::Prompt(BattlePrompt::Action(actions))
    }
}

/// The enemies' turn, then the check that ends the round.
pub fn process_turn(battle: &mut Battle, player: &mut Player, notes: Vec<BattleNote>) -> (r: BattleStep)
    requires
        old(battle).armed(),
        old(battle).wf(),
    ensures
        final(battle).armed(),
        final(battle).wf(),
        final(battle).unused_enemies@ == old(battle).unused_enemies@,
        forall|i: int|
            0 <= i < old(battle).lanes.len() ==> match (#[trigger] old(battle).lanes@[i]) {
                None => final(battle).lanes@[i] is None,
                Some(e) => final(battle).lanes@[i] matches Some(n) && kept_identity(n, e),
            },
        ends_round(*final(battle), *final(player), r.outcome),
        enemies_acted(
            old(battle).lanes@,
            old(player).resources.stamina,
            final(battle).lanes@,
            final(player).resources.stamina,
            r.notes@.skip(notes.len() as int),
        ),
        final(player).resources.stamina <= old(player).resources.stamina,
        final(player).resources == (PlayerResources {
            stamina: final(player).resources.stamina,
            ..old(player).resources
        }),
        final(player).weapons@ == old(player).weapons@,
        final(player).position == old(player).position,
        final(player).selected_action is None || final(player).selected_action == old(
            player,
        ).selected_action,
        final(player).selected_weapon is None || final(player).selected_weapon == old(
            player,
        ).selected_weapon,
        r.notes.len() >= notes.len(),
        r.notes@.take(notes.len() as int) == notes@,
{
    let mut notes = notes;
    enemy_phase(battle, &mut player.resources.stamina, &mut notes);
    let outcome = round_end(battle, player);
    BattleStep { notes, outcome }
}

/// The player's attack lands on the enemy in lane `lane` with `weapon`,
/// dealing `damage`: the target is struck, the dead taken out of their lanes
/// and the lanes filled again from the queue.
pub fn hit(battle: &mut Battle, lane: usize, weapon: &'static str, damage: u32) -> (note: BattleNote)
    requires
        lane < old(battle).lanes.len(),
        old(battle).lanes[lane as int] is Some,
    ensures
        (final(battle).lanes@, final(battle).unused_enemies@) == after_attack(
            old(battle).lanes@,
            old(battle).unused_enemies@,
            lane as int,
            damage,
        ),
        note == hit_note(old(battle).lanes[lane as int]->Some_0, weapon, damage),
        final(battle).lanes.len() == old(battle).lanes.len(),
        old(battle).armed() ==> final(battle).armed(),
{
    let target = match &battle.lanes[lane] {
        Some(e) => e.name,
        None => "",
    };
    let killed = battle.strike(lane, damage);
    battle.clean_out_dead();
    battle.place_enemies();
    proof {
        crate::battle::lemma_lanes_kept(
            old(battle).lanes@.update(
                lane as int,
                Some(crate::battle::struck(old(battle).lanes[lane as int]->Some_0, damage)),
            ),
            old(battle).unused_enemies@,
        );
    }
    if killed {
        BattleNote::Kill { weapon, target }
    } else {
        BattleNote::Hit { weapon, damage, target }
    }
}

/// The start of a battle: the lanes are filled from the queue and the player
/// is asked for an action.
pub fn start_battle(battle: &mut Battle, player: &Player) -> (r: BattlePrompt)
    ensures
        (final(battle).lanes@, final(battle).unused_enemies@) == crate::battle::filled(
            old(battle).lanes@,
            old(battle).unused_enemies@,
        ),
        old(battle).armed() ==> final(battle).armed(),
        r matches BattlePrompt::Action(a) && a@ == battle_actions(),
{
    battle.place_enemies();
    BattlePrompt::Action(player.get_battle_actions())
}

/// The player picked action `decision` of those offered at the start of a
/// round.
fn pick_action(battle: &mut Battle, player: &mut Player, decision: usize) -> (r: BattleStep)
    requires
        old(player).selected_action is None,
        decision < battle_actions().len(),
        old(battle).armed(),
        old(battle).wf(),
        old(player).wf(),
    ensures
        advanced(*old(battle), *old(player), decision, *final(battle), *final(player), r),
{
    let action = player.get_battle_actions()[decision];
    player.selected_action = Some(action);
    match action {
        BattleAction::Move => BattleStep {
            notes: Vec::new(),
            outcome: BattleOutcome::Prompt(BattlePrompt::Location(player.get_movable_locations())),
        },
        BattleAction::Attack => BattleStep {
            notes: Vec::new(),
            outcome: BattleOutcome::Prompt(BattlePrompt::Weapon(player.get_weapons())),
        },
        BattleAction::Wait => {
            let r = process_turn(battle, player, Vec::new());
            assert(r.notes@.skip(0) =~= r.notes@);
            r
        },
    }
}

/// The player picked lane `decision` of those offered to move to.
fn pick_location(battle: &mut Battle, player: &mut Player, decision: usize) -> (r: BattleStep)
    requires
        old(player).selected_action == Some(BattleAction::Move),
        decision < movable_positions(old(player).position).len(),
        old(battle).armed(),
        old(battle).wf(),
        old(player).wf(),
    ensures
        advanced(*old(battle), *old(player), decision, *final(battle), *final(player), r),
{
    let locations = player.get_movable_locations();
    assert(locations[decision as int].1 == movable_positions(player.position)[decision as int]);
    player.position = locations[decision].1;
    let r = process_turn(battle, player, Vec::new());
    assert(r.notes@.skip(0) =~= r.notes@);
    r
}

/// The player picked weapon `decision` of those offered.
fn pick_weapon(battle: &mut Battle, player: &mut Player, decision: usize) -> (r: BattleStep)
    requires
        old(player).selected_action == Some(BattleAction::Attack),
        old(player).selected_weapon is None,
        decision < usable_weapons(old(player).resources, old(player).weapons@).len(),
        old(battle).armed(),
        old(battle).wf(),
        old(player).wf(),
    ensures
        advanced(*old(battle), *old(player), decision, *final(battle), *final(player), r),
{
    let weapons = player.get_weapons();
    let weapon = weapons[decision];
    proof {
        lemma_usable_weapons_ok(player.resources, player.weapons@);
    }
    let targets = battle.get_valid_targets(player.position, weapon.range);
    if targets.len() > 0 {
        player.selected_weapon = Some(weapon);
        BattleStep { notes: Vec::new(), outcome: BattleOutcome::Prompt(BattlePrompt::Target(targets)) }
    } else {
        let actions = player.get_battle_actions();
        player.clear_selections();
        let notes = vec![BattleNote::NobodyInRange];
        assert(notes@ =~= seq![BattleNote::NobodyInRange]);
        BattleStep {
            notes,
            outcome: BattleOutcome::Prompt(BattlePrompt::Action(actions)),
        }
    }
}

/// The player picked target `decision` of those in range of the chosen
/// weapon: the weapon's cost is paid come what may, and if the payment went
/// through its damage is rolled and dealt; then the enemies take their turn.
fn pick_target(battle: &mut Battle, player: &mut Player, decision: usize, weapon: Weapon) -> (r: BattleStep)
    requires
        old(player).selected_action == Some(BattleAction::Attack),
        old(player).selected_weapon == Some(weapon),
        decision < target_lanes(old(battle).lanes@, old(player).position, weapon.range).len(),
        old(battle).armed(),
        old(battle).wf(),
        old(player).wf(),
    ensures
        advanced(*old(battle), *old(player), decision, *final(battle), *final(player), r),
{
    let lane = match battle.valid_target_lane(player.position, weapon.range, decision) {
        Some(l) => l,
        None => 0,
    };
    let cost = match weapon.cost {
        Some(c) => c,
        None => PlayerResources::default(),
    };
    let ghost lanes0 = battle.lanes@;
    let ghost unused0 = battle.unused_enemies@;
    assert(lane as int == target_lanes(lanes0, player.position, weapon.range)[decision as int]);
    let mut notes: Vec<BattleNote> = Vec::new();
    let ok = player.resources.force_remove(cost);
    let ghost paid = player.resources;
    let ghost mut dealt: u32 = 0;
    if ok {
        let damage = weapon.damage.roll();
        proof {
            dealt = damage;
        }
        notes.push(hit(battle, lane, weapon.name, damage));
    } else {
        notes.push(BattleNote::ResourcesRanDry);
    }
    let ghost mid_lanes = battle.lanes@;
    let ghost mid_unused = battle.unused_enemies@;
    let ghost first = notes@;
    let r = process_turn(battle, player, notes);
    proof {
        assert(r.notes@.take(1)[0] == r.notes@[0]);
        assert(r.notes@[0] == first[0]);
        if ok {
            assert(weapon.damage.floor() <= dealt <= weapon.damage.limit() && (mid_lanes, mid_unused)
                == after_attack(lanes0, unused0, lane as int, dealt) && r.notes@[0] == hit_note(
                lanes0[lane as int]->Some_0,
                weapon.name,
                dealt,
            ));
        }
        assert(attack_round(
            *old(battle),
            *old(player),
            weapon,
            lane as int,
            paid,
            ok,
            mid_lanes,
            mid_unused,
            *battle,
            *player,
            r.notes@,
        ));
    }
    r
}

/// The note for an attack dealing `damage` to enemy `e` with `weapon`.
pub open spec fn hit_note(e: Enemy, weapon: &'static str, damage: u32) -> BattleNote {
    if damage >= e.health {
        BattleNote::Kill { weapon, target: e.name }
    } else {
        BattleNote::Hit { weapon, damage, target: e.name }
    }
}

/// An attack on lane `lane` with weapon `w`, from battle `b` and player `p`
/// to `b2` and `p2`, with `notes`: the cost is paid come what may, leaving
/// resources `paid`, and `ok` says whether the payment went through. If it
/// did, a damage the weapon can roll is dealt to the target and the lanes
/// cleaned and filled (`mid_lanes`, `mid_unused`); if not, the enemies are
/// untouched and the first note says the resources ran dry. Then the enemies
/// act.
pub open spec fn attack_round(
    b: Battle,
    p: Player,
    w: Weapon,
    lane: int,
    paid: PlayerResources,
    ok: bool,
    mid_lanes: Seq<Option<Enemy>>,
    mid_unused: Seq<Enemy>,
    b2: Battle,
    p2: Player,
    notes: Seq<BattleNote>,
) -> bool {
    &&& PlayerResources::force_removal(p.resources, cost_of(w), paid, ok)
    &&& notes.len() >= 1
    &&& ok ==> exists|d: u32|
        w.damage.floor() <= d <= w.damage.limit() && (mid_lanes, mid_unused) == #[trigger] after_attack(
            b.lanes@,
            b.unused_enemies@,
            lane,
            d,
        ) && notes[0] == hit_note(b.lanes[lane]->Some_0, w.name, d)
    &&& !ok ==> mid_lanes == b.lanes@ && mid_unused == b.unused_enemies@ && notes[0]
        == BattleNote::ResourcesRanDry
    &&& enemies_acted(mid_lanes, paid.stamina, b2.lanes@, p2.resources.stamina, notes.skip(1))
    &&& b2.unused_enemies@ == mid_unused
    &&& p2.resources == (PlayerResources { stamina: p2.resources.stamina, ..paid })
}

/// What one step of the battle does, given the state before (`b`, `p`) and
/// after (`b2`, `p2`) it and the option `decision` the player picked.
pub open spec fn advanced(
    b: Battle,
    p: Player,
    decision: usize,
    b2: Battle,
    p2: Player,
    r: BattleStep,
) -> bool {
    &&& b2.wf() && b2.armed() && p2.wf()
    &&& p2.weapons@ == p.weapons@
    &&& match p.selected_action {
        None => {
            let action = battle_actions()[decision as int];
            match action {
                BattleAction::Move => {
                    &&& b2 == b
                    &&& p2 == (Player { selected_action: Some(BattleAction::Move), ..p })
                    &&& r.notes@.len() == 0
                    &&& r.outcome matches BattleOutcome::Prompt(BattlePrompt::Location(ls))
                        && ls@.map_values(|l: (&'static str, u32)| l.1) == movable_positions(p.position)
                },
                BattleAction::Attack => {
                    &&& b2 == b
                    &&& p2 == (Player { selected_action: Some(BattleAction::Attack), ..p })
                    &&& r.notes@.len() == 0
                    &&& r.outcome matches BattleOutcome::Prompt(BattlePrompt::Weapon(ws))
                        && ws@ == usable_weapons(p.resources, p.weapons@)
                },
                BattleAction::Wait => {
                    &&& ends_round(b2, p2, r.outcome)
                    &&& enemies_acted(b.lanes@, p.resources.stamina, b2.lanes@, p2.resources.stamina, r.notes@)
                    &&& p2.resources == (PlayerResources { stamina: p2.resources.stamina, ..p.resources })
                    &&& p2.position == p.position
                    &&& b2.unused_enemies@ == b.unused_enemies@
                },
            }
        },
        Some(BattleAction::Move) => {
            &&& ends_round(b2, p2, r.outcome)
            &&& enemies_acted(b.lanes@, p.resources.stamina, b2.lanes@, p2.resources.stamina, r.notes@)
            &&& p2.resources == (PlayerResources { stamina: p2.resources.stamina, ..p.resources })
            &&& p2.position == movable_positions(p.position)[decision as int]
            &&& b2.unused_enemies@ == b.unused_enemies@
        },
        Some(BattleAction::Attack) => match p.selected_weapon {
            None => {
                let w = usable_weapons(p.resources, p.weapons@)[decision as int];
                let targets = target_lanes(b.lanes@, p.position, w.range);
                &&& b2 == b
                &&& targets.len() > 0 ==> {
                    &&& p2 == (Player { selected_weapon: Some(w), ..p })
                    &&& r.notes@.len() == 0
                    &&& r.outcome matches BattleOutcome::Prompt(BattlePrompt::Target(ts))
                        && ts.len() == targets.len()
                }
                &&& targets.len() == 0 ==> {
                    &&& p2 == (Player { selected_action: None, selected_weapon: None, ..p })
                    &&& r.notes@ == seq![BattleNote::NobodyInRange]
                    &&& prompts_action(r.outcome)
                }
            },
            Some(w) => {
                let lane = target_lanes(b.lanes@, p.position, w.range)[decision as int];
                &&& ends_round(b2, p2, r.outcome)
                &&& p2.position == p.position
                &&& p.resources.affords(cost_of(w)) ==> p2.resources.bullets == p.resources.bullets
                    - cost_of(w).bullets
                &&& !p.resources.affords(cost_of(w)) ==> p2.resources.bullets == p.resources.bullets
                    && r.notes@[0] == BattleNote::ResourcesRanDry
                &&& exists|
                    paid: PlayerResources,
                    ok: bool,
                    mid_lanes: Seq<Option<Enemy>>,
                    mid_unused: Seq<Enemy>,
                | #[trigger] attack_round(b, p, w, lane, paid, ok, mid_lanes, mid_unused, b2, p2, r.notes@)
            },
        },
        Some(BattleAction::Wait) => false,
    }
}

proof fn lemma_turn_health(lanes: Seq<Option<Enemy>>, stamina: u32, picks: Seq<(usize, u32)>, n: nat)
    requires
        n <= lanes.len(),
    ensures
        enemy_turn(lanes, stamina, picks, n).0.len() == lanes.len(),
        lanes_health(enemy_turn(lanes, stamina, picks, n).0) == lanes_health(lanes),
        forall|j: int| n <= j < lanes.len() ==> #[trigger] enemy_turn(lanes, stamina, picks, n).0[j]
            == lanes[j],
    decreases n,
{
    if n > 0 {
        lemma_turn_health(lanes, stamina, picks, (n - 1) as nat);
        let prev = enemy_turn(lanes, stamina, picks, (n - 1) as nat);
        assert(prev.0[n - 1] == lanes[n - 1]);
        if let Some(e) = lanes[n - 1] {
            let a = acted(e, picks[n - 1], prev.1);
            lemma_health_update(prev.0, n - 1, a.0);
        }
    }
}

/// The enemies' turn leaves the health of every enemy as it was.
pub proof fn lemma_enemies_keep_health(
    lanes: Seq<Option<Enemy>>,
    stamina: u32,
    lanes2: Seq<Option<Enemy>>,
    stamina2: u32,
    notes: Seq<BattleNote>,
)
    requires
        enemies_acted(lanes, stamina, lanes2, stamina2, notes),
    ensures
        lanes_health(lanes2) == lanes_health(lanes),
{
    let picks = choose|picks: Seq<(usize, u32)>|
        picks_ok(lanes, picks) && #[trigger] enemy_turn(lanes, stamina, picks, lanes.len()) == (
            lanes2,
            stamina2,
            notes,
        );
    lemma_turn_health(lanes, stamina, picks, lanes.len());
}

/// No step of a battle raises the health left to the enemies, so a battle
/// ends after finitely many attacks that lower it. An attack whose payment
/// went through, on a living target, with a weapon that deals at least one
/// damage, lowers it strictly.
pub proof fn lemma_step_never_raises_health(b: Battle, p: Player, decision: usize, b2: Battle, p2: Player, r: BattleStep)
    requires
        decision < options_offered(b, p),
        advanced(b, p, decision, b2, p2, r),
    ensures
        b2.remaining_health() <= b.remaining_health(),
        (p.selected_action == Some(BattleAction::Attack) && (p.selected_weapon matches Some(w)
            && w.damage.floor() >= 1 && b.lanes[target_lanes(b.lanes@, p.position, w.range)[decision as int]]->Some_0.health
            > 0) && r.notes@[0] != BattleNote::ResourcesRanDry) ==> b2.remaining_health() < b.remaining_health(),
{
    match p.selected_action {
        None => {
            if battle_actions()[decision as int] == BattleAction::Wait {
                lemma_enemies_keep_health(b.lanes@, p.resources.stamina, b2.lanes@, p2.resources.stamina, r.notes@);
            }
        },
        Some(BattleAction::Move) => {
            lemma_enemies_keep_health(b.lanes@, p.resources.stamina, b2.lanes@, p2.resources.stamina, r.notes@);
        },
        Some(BattleAction::Attack) => {
            if let Some(w) = p.selected_weapon {
                let lane = target_lanes(b.lanes@, p.position, w.range)[decision as int];
                let (paid, ok, mid_lanes, mid_unused) = choose|
                    paid: PlayerResources,
                    ok: bool,
                    mid_lanes: Seq<Option<Enemy>>,
                    mid_unused: Seq<Enemy>,
                | #[trigger] attack_round(b, p, w, lane, paid, ok, mid_lanes, mid_unused, b2, p2, r.notes@);
                lemma_enemies_keep_health(mid_lanes, paid.stamina, b2.lanes@, p2.resources.stamina, r.notes@.skip(1));
                if ok {
                    let d = choose|d: u32|
                        w.damage.floor() <= d <= w.damage.limit() && (mid_lanes, mid_unused) == #[trigger] after_attack(
                            b.lanes@,
                            b.unused_enemies@,
                            lane,
                            d,
                        ) && r.notes@[0] == hit_note(b.lanes[lane]->Some_0, w.name, d);
                    crate::battle::lemma_target_lane_holds(b.lanes@, p.position, w.range, decision as int);
                    lemma_attack_health_bound(b.lanes@, b.unused_enemies@, lane, d);
                }
            }
        },
        Some(BattleAction::Wait) => {},
    }
}

/// One step of the battle: the player picked option `decision` of those last
/// offered. Depending on what was picked before, this chooses the round's
/// action, the lane to move to, the weapon, or the target; a move, a wait or
/// an attack on a target ends the player's part of the round, and the
/// enemies act before the round is checked.
pub fn advance_battle(battle: &mut Battle, player: &mut Player, decision: usize) -> (r: BattleStep)
    requires
        decision < options_offered(*old(battle), *old(player)),
        old(battle).armed(),
        old(battle).wf(),
        old(player).wf(),
    ensures
        advanced(*old(battle), *old(player), decision, *final(battle), *final(player), r),
{
    match player.selected_action {
        None => pick_action(battle, player, decision),
        Some(BattleAction::Move) => pick_location(battle, player, decision),
        Some(BattleAction::Attack) => match player.selected_weapon {
            None => pick_weapon(battle, player, decision),
            Some(w) => pick_target(battle, player, decision, w),
        },
        Some(BattleAction::Wait) => BattleStep {
            notes: Vec::new(),
            outcome: BattleOutcome::Prompt(BattlePrompt::Action(Vec::new())),
        },
    }
}

} // verus!
