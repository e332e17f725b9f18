//! The encounters of the game: a catalog drawn from at random, and the fixed
//! scripts that open and close a game.

use vstd::prelude::*;

use crate::battle::{armed, Battle, Enemy, Weapon, BATTLE_ARENA_DEPTH, BATTLE_ARENA_WIDTH};
use crate::chance::random_index;
use crate::dice_value::DiceValue;
use crate::encounter::{Cursor, Encounter, EncounterDecision, EncounterPhase, Script};
use crate::player::PlayerResources;

verus! {

/// A dice value.
pub open spec fn dv(count: u32, constant: i32) -> DiceValue {
    DiceValue { dice: count, constant }
}

/// Only stamina.
pub open spec fn stamina_of(n: u32) -> PlayerResources {
    PlayerResources { stamina: n, ..PlayerResources::empty() }
}

/// Only bullets.
pub open spec fn bullets_of(n: u32) -> PlayerResources {
    PlayerResources { bullets: n, ..PlayerResources::empty() }
}

/// Only money.
pub open spec fn money_of(v: DiceValue) -> PlayerResources {
    PlayerResources { money: v, ..PlayerResources::empty() }
}

/// Only batteries.
pub open spec fn batteries_of(v: DiceValue) -> PlayerResources {
    PlayerResources { batteries: v, ..PlayerResources::empty() }
}

/// A free melee weapon.
pub open spec fn melee_weapon(name: &'static str, damage: DiceValue) -> Weapon {
    Weapon { name, damage, range: 1, cost: None }
}

/// `e` is a foe called `name` with `health` and `weapons`, at the far corner
/// of the arena.
pub open spec fn foe(e: Enemy, name: &'static str, health: u32, weapons: Seq<Weapon>) -> bool {
    &&& e.name == name
    &&& e.health == health
    &&& e.weapons@ == weapons
    &&& e.position_x == BATTLE_ARENA_WIDTH
    &&& e.position_y == BATTLE_ARENA_DEPTH
}

/// `b` has every lane empty and `n` enemies queued.
pub open spec fn fresh_battle(b: Battle, n: nat) -> bool {
    &&& b.lanes.len() == BATTLE_ARENA_WIDTH
    &&& forall|i: int| 0 <= i < b.lanes.len() ==> #[trigger] b.lanes[i] is None
    &&& b.unused_enemies.len() == n
}

/// A wolf's bites.
pub open spec fn wolf_bites() -> Seq<Weapon> {
    seq![melee_weapon("The Jaws that Bite", dv(2, 0)), melee_weapon("The Claws that Catch", dv(2, 0))]
}

/// Three wolves.
pub open spec fn is_wolf_pack(b: Battle) -> bool {
    &&& fresh_battle(b, 3)
    &&& foe(b.unused_enemies[0], "Gamma wolf", 10, wolf_bites())
    &&& foe(b.unused_enemies[1], "Beta wolf", 10, wolf_bites())
    &&& foe(b.unused_enemies[2], "Scientifically accurate alpha wolf", 10, wolf_bites())
}

/// An electric sheep's weapons.
pub open spec fn sheep_weapons() -> Seq<Weapon> {
    seq![
        melee_weapon("Hoofs of steel", dv(0, 1)),
        Weapon { name: "Philosophical quandries", damage: dv(1, 0), range: 2, cost: None },
    ]
}

/// Five electric sheep.
pub open spec fn is_sheep_herd(b: Battle) -> bool {
    &&& fresh_battle(b, 5)
    &&& forall|k: int| 0 <= k < 5 ==> foe(#[trigger] b.unused_enemies[k], "Half sheep half machine", 10, sheep_weapons())
}

/// A getaway car.
pub open spec fn is_getaway_car(b: Battle) -> bool {
    &&& fresh_battle(b, 1)
    &&& foe(b.unused_enemies[0], "Getaway car", 10, seq![melee_weapon("Element of surprise", dv(1, 0))])
}

/// The stamina every ordinary encounter costs at its end.
pub open spec fn drain_phase() -> EncounterPhase {
    EncounterPhase::Lose("All this effort is exhausting", stamina_of(1))
}

/// Phase `k` of `s` loops over `f`.
pub open spec fn loop_at(s: Seq<EncounterPhase>, k: int, f: Seq<usize>) -> bool {
    s[k] matches EncounterPhase::Loop(v) && v@ == f
}

/// Phase `k` of `s` asks `prompt` with options `opts`.
pub open spec fn decision_at(s: Seq<EncounterPhase>, k: int, prompt: &'static str, opts: Seq<(&'static str, usize)>) -> bool {
    s[k] matches EncounterPhase::Decision(d) && d.prompt == prompt && d.options@ == opts
}

/// `e` is at the start of a script whose outermost phases are `root`.
pub open spec fn starts_at(e: Encounter, root: Seq<usize>) -> bool {
    e.cursor() == (Cursor { frames: seq![root], pointers: seq![0usize] })
}

/// The bullet trade of the merchants: 6 bullets for a money of 10.
pub open spec fn bullet_trade() -> EncounterPhase {
    EncounterPhase::Trade(
        "You get some ammo.",
        "Unfortunately your math rocks failed you today, the marchant gets huffy.",
        money_of(dv(0, 10)),
        bullets_of(6),
    )
}

/// The food trade of the merchants: 4 stamina for a money of 8.
pub open spec fn food_trade() -> EncounterPhase {
    EncounterPhase::Trade(
        "You manage to gain some energy.",
        "You don't have enough money.",
        money_of(dv(0, 8)),
        stamina_of(4),
    )
}

/// The script of the test encounter.
pub open spec fn test_script(s: Seq<EncounterPhase>) -> bool {
    &&& s.len() == 6
    &&& s[0] == EncounterPhase::Line("This is a test encounter")
    &&& s[1] matches EncounterPhase::Battle(b) && is_wolf_pack(b)
    &&& s[2] == EncounterPhase::Gain("You avoid the pointless fight, have a money", money_of(dv(1, 0)))
    &&& decision_at(s, 3, "Would you like to fight?", seq![("Hell yeah!", 1usize), ("Would rather not", 2usize)])
    &&& s[4] == EncounterPhase::Line("This encounter is over")
    &&& s[5] == drain_phase()
}

/// The script of the wolf fight.
pub open spec fn wolf_fight_script(s: Seq<EncounterPhase>) -> bool {
    &&& s.len() == 3
    &&& s[0] == EncounterPhase::Line("Wolves attack!")
    &&& s[1] matches EncounterPhase::Battle(b) && is_wolf_pack(b)
    &&& s[2] == drain_phase()
}

/// The script of the electric sheep.
pub open spec fn sheep_script(s: Seq<EncounterPhase>) -> bool {
    &&& s.len() == 7
    &&& s[0] == EncounterPhase::Line("A herd of electric sheep are barreling at you")
    &&& s[1] matches EncounterPhase::Battle(b) && is_sheep_herd(b)
    &&& s[2] == EncounterPhase::Lose(
        "You start feeling drowsy, briefly dream of androids and the herd tramples you",
        stamina_of(20),
    )
    &&& s[3] == EncounterPhase::Trade(
        "You rattle a few shots into the air, they seem unimpressed",
        "You think of shooting, but don't have enough bullets. They seem to ignore you nonetheless.",
        bullets_of(6),
        PlayerResources::empty(),
    )
    &&& decision_at(
        s,
        4,
        "What to do in time of crisis?",
        seq![
            ("Stand your ground", 1usize),
            ("Attempt to count them", 2usize),
            ("Spook them with your gun (6 bullets)", 3usize),
        ],
    )
    &&& s[5] == EncounterPhase::Line("The semimechanical bovine have been dealt with, but at what cost")
    &&& s[6] == drain_phase()
}

/// The script of the travelling merchant.
pub open spec fn merchant_script(s: Seq<EncounterPhase>) -> bool {
    &&& s.len() == 14
    &&& s[0] == bullet_trade()
    &&& s[1] == food_trade()
    &&& s[2] == EncounterPhase::Trade(
        "You gain a mystery box!",
        "You don't have enough money.",
        money_of(dv(2, 0)),
        PlayerResources::empty(),
    )
    &&& s[3] == EncounterPhase::Line(
        "The box contains absolutely nothing, as you look back up, the merchant grins at you",
    )
    &&& s[4] is Break
    &&& loop_at(s, 5, seq![2usize, 3usize, 4usize])
    &&& s[6] == EncounterPhase::Line("The merchant opens his coat to reveal trinkets and baubles of all sorts")
    &&& decision_at(
        s,
        7,
        "Do you wish to engage in trade?",
        seq![("Sure, why not.", 6usize), ("Maybe some other time.", 4usize)],
    )
    &&& decision_at(
        s,
        8,
        "Anything in particular?",
        seq![
            ("Bullets, 6 for 10 dice value!", 0usize),
            ("Food, 4 points of stamina for 8 dice value", 1usize),
            ("Mystery box", 5usize),
        ],
    )
    &&& s[9] == EncounterPhase::Line("Still interested?")
    &&& loop_at(s, 10, seq![7usize, 8usize, 9usize])
    &&& s[11] == EncounterPhase::Line("You see a merchant travelling down the road")
    &&& s[12] == EncounterPhase::Line("Interested in trade, are we?")
    &&& s[13] == EncounterPhase::Line("The merchant continues his journey.")
}

/// The script of the car chase.
pub open spec fn chase_script(s: Seq<EncounterPhase>) -> bool {
    &&& s.len() == 8
    &&& s[0] == EncounterPhase::Line("You pick up the pace and pursue")
    &&& s[1] matches EncounterPhase::Battle(b) && is_getaway_car(b)
    &&& s[2] == EncounterPhase::Gain(
        "You rummage the remains of the cart and find a fistful of dollars",
        money_of(dv(10, 0)),
    )
    &&& s[3] is Break
    &&& loop_at(s, 4, seq![0usize, 1usize, 2usize, 3usize])
    &&& s[5] == EncounterPhase::Line("You watch as the car leaves")
    &&& s[6] == EncounterPhase::Line("A getaway car kicks up dust as it almost runs you over")
    &&& decision_at(s, 7, "Pursue", seq![("Rob the robbers!", 4usize), ("Let them get away", 5usize)])
}

/// The script of the sleepy town.
pub open spec fn town_script(s: Seq<EncounterPhase>) -> bool {
    &&& s.len() == 25
    &&& s[0] is Break
    &&& s[1] == bullet_trade()
    &&& s[2] == food_trade()
    &&& s[3] == EncounterPhase::Trade(
        "It's a box of batteries. What did you expect?",
        "Dry on cash are we?",
        money_of(dv(0, 20)),
        batteries_of(dv(10, 0)),
    )
    &&& s[4] == EncounterPhase::Line(
        "The box contains absolutely nothing, as you look back up, the merchant grins at you",
    )
    &&& loop_at(s, 5, seq![3usize, 4usize, 0usize])
    &&& s[6] == EncounterPhase::Line("The merchant opens his coat to reveal trinkets and baubles of all sorts")
    &&& decision_at(
        s,
        7,
        "Do you wish to engage in trade?",
        seq![("Sure, why not.", 6usize), ("Maybe some other time.", 0usize)],
    )
    &&& decision_at(
        s,
        8,
        "Anything in particular?",
        seq![
            ("Bullets, 6 for 10 dice value!", 1usize),
            ("Food, 4 points of stamina for 8 dice value", 2usize),
            ("Battery box, 10 for 20 dice value", 5usize),
        ],
    )
    &&& s[9] == EncounterPhase::Line("Still interested?")
    &&& loop_at(s, 10, seq![7usize, 8usize, 9usize])
    &&& s[11] == EncounterPhase::Line("You see a strangely familiar trader in his shack")
    &&& s[12] == EncounterPhase::Line("Interested in trade, are we?")
    &&& s[13] == EncounterPhase::Line("You leave, somehow feeling emptier than when you came in.")
    &&& loop_at(s, 14, seq![11usize, 12usize, 10usize, 13usize])
    &&& s[15] == EncounterPhase::Trade(
        "You feel like you were born yesterday",
        "Unfortunately, capitalism has been deeply rooted here and you need to pay",
        money_of(dv(0, 10)),
        stamina_of(20),
    )
    &&& decision_at(
        s,
        16,
        "10 dice points for a bit of relief",
        seq![("Yeah that seems fair", 15usize), ("Eh, that's a bit steep", 0usize)],
    )
    &&& s[17] == EncounterPhase::Line("You could stay here forever, maybe just one more day")
    &&& loop_at(s, 18, seq![16usize, 17usize])
    &&& s[19] == EncounterPhase::Line("You head to the closest hole in the wall, looking for a drink")
    &&& loop_at(s, 20, seq![19usize, 18usize, 0usize])
    &&& decision_at(
        s,
        21,
        "Where to?",
        seq![("Get a drink", 20usize), ("Stock up", 14usize), ("head out", 0usize)],
    )
    &&& loop_at(s, 22, seq![21usize])
    &&& s[23] == EncounterPhase::Line("You arrive in a sleepy town")
    &&& s[24] == EncounterPhase::Line("This is a place worth visiting.")
}

/// No `Break` can run in the outermost frame: none stands among the root
/// phases, nor among the options of a root question.
pub open spec fn breaks_nested(s: Seq<EncounterPhase>, root: Seq<usize>) -> bool {
    forall|j: int|
        0 <= j < root.len() ==> {
            &&& !(s[#[trigger] root[j] as int] is Break)
            &&& (s[root[j] as int] matches EncounterPhase::Decision(d) ==> forall|o: int|
                0 <= o < d.options.len() ==> !(s[(#[trigger] d.options[o]).1 as int] is Break))
        }
}

/// Every loop of the script holds a `Break`, a question or a loop nested in
/// it; with every loop so, stepping through one never goes round without
/// leaving it or waiting on the player.
pub open spec fn loops_can_end(s: Seq<EncounterPhase>) -> bool {
    forall|k: int|
        0 <= k < s.len() ==> (#[trigger] s[k] matches EncounterPhase::Loop(f) ==> exists|j: int|
            0 <= j < f.len() && (s[#[trigger] f[j] as int] is Break || s[f[j] as int] is Decision
                || s[f[j] as int] is Loop))
}

proof fn lemma_town_loops(s: Seq<EncounterPhase>)
    requires
        town_script(s),
    ensures
        loops_can_end(s),
{
    assert forall|k: int| 0 <= k < s.len() implies (#[trigger] s[k] matches EncounterPhase::Loop(f)
        ==> exists|j: int|
        0 <= j < f.len() && (s[#[trigger] f[j] as int] is Break || s[f[j] as int] is Decision
            || s[f[j] as int] is Loop)) by {
        if let EncounterPhase::Loop(f) = s[k] {
            let w: int = if k == 5 { 2 } else if k == 14 { 2 } else if k == 20 { 2 } else { 0 };
            assert(0 <= w < f.len() && (s[f[w] as int] is Break || s[f[w] as int] is Decision
                || s[f[w] as int] is Loop));
        }
    }
}

/// `e` is the `i`-th encounter of the travelling catalog, at its start.
pub open spec fn catalog_entry(i: int, e: Encounter) -> bool {
    if i == 0 {
        test_script(e.script@) && starts_at(e, seq![0usize, 3usize, 4usize, 5usize])
    } else if i == 1 {
        wolf_fight_script(e.script@) && starts_at(e, seq![0usize, 1usize, 2usize])
    } else if i == 2 {
        sheep_script(e.script@) && starts_at(e, seq![0usize, 4usize, 5usize, 6usize])
    } else if i == 3 {
        merchant_script(e.script@) && starts_at(e, seq![11usize, 12usize, 10usize, 13usize])
    } else if i == 4 {
        chase_script(e.script@) && starts_at(e, seq![6usize, 7usize])
    } else if i == 5 {
        town_script(e.script@) && starts_at(e, seq![23usize, 22usize, 24usize])
    } else {
        false
    }
}

fn dice(count: u32, constant: i32) -> (r: DiceValue)
    ensures
        r == (DiceValue { dice: count, constant }),
{
    DiceValue { dice: count, constant }
}

fn stamina(n: u32) -> (r: PlayerResources)
    ensures
        r == stamina_of(n),
{
    PlayerResources { stamina: n, ..PlayerResources::default() }
}

fn bullets(n: u32) -> (r: PlayerResources)
    ensures
        r == bullets_of(n),
{
    PlayerResources { bullets: n, ..PlayerResources::default() }
}

fn money(v: DiceValue) -> (r: PlayerResources)
    ensures
        r == money_of(v),
{
    PlayerResources { money: v, ..PlayerResources::default() }
}

fn batteries(v: DiceValue) -> (r: PlayerResources)
    ensures
        r == batteries_of(v),
{
    PlayerResources { batteries: v, ..PlayerResources::default() }
}

/// A free melee weapon.
fn melee(name: &'static str, damage: DiceValue) -> (r: Weapon)
    ensures
        r == melee_weapon(name, damage),
{
    Weapon { name, damage, range: 1, cost: None }
}

/// An enemy with `health` and `weapons`, at the far corner of the arena.
fn enemy(name: &'static str, health: u32, weapons: Vec<Weapon>) -> (r: Enemy)
    requires
        forall|k: int| 0 <= k < weapons.len() ==> (#[trigger] weapons[k]).damage.rollable(),
    ensures
        armed(r),
        foe(r, name, health, weapons@),
{
    Enemy { name, health, weapons, position_x: BATTLE_ARENA_WIDTH, position_y: BATTLE_ARENA_DEPTH }
}

/// A battle against `enemies`, all queued.
fn battle_of(enemies: Vec<Enemy>) -> (r: Battle)
    requires
        forall|k: int| 0 <= k < enemies.len() ==> armed(#[trigger] enemies[k]),
    ensures
        r.wf(),
        r.armed(),
        fresh_battle(r, enemies.len() as nat),
        r.unused_enemies@ == enemies@,
{
    Battle::with(enemies)
}

/// A wolf with two bites of `2d6`.
fn wolf(name: &'static str) -> (r: Enemy)
    ensures
        armed(r),
        foe(r, name, 10, wolf_bites()),
{
    let weapons = vec![
        melee("The Jaws that Bite", dice(2, 0)),
        melee("The Claws that Catch", dice(2, 0)),
    ];
    assert(weapons@ =~= wolf_bites());
    enemy(name, 10, weapons)
}

/// Three wolves.
fn wolves() -> (r: Battle)
    ensures
        r.wf(),
        r.armed(),
        is_wolf_pack(r),
{
    let pack = vec![wolf("Gamma wolf"), wolf("Beta wolf"), wolf("Scientifically accurate alpha wolf")];
    battle_of(pack)
}

/// A decision phase.
fn decision(prompt: &'static str, options: Vec<(&'static str, usize)>) -> (r: EncounterPhase)
    ensures
        r == EncounterPhase::Decision(EncounterDecision { prompt, options }),
{
    EncounterPhase::Decision(EncounterDecision { prompt, options })
}

/// The stamina every ordinary encounter costs at its end.
fn stamina_drain() -> (r: EncounterPhase)
    ensures
        r == drain_phase(),
{
    EncounterPhase::Lose("All this effort is exhausting", stamina(1))
}

/// A test of the machinery: a fight with wolves, or a coin for avoiding it.
pub fn test_encounter() -> (r: Encounter)
    ensures
        r.wf(),
        test_script(r.script@),
        starts_at(r, seq![0usize, 3usize, 4usize, 5usize]),
{
    let mut s = Script::new();
    let l0 = s.add(EncounterPhase::Line("This is a test encounter"));
    let fight = s.add(EncounterPhase::Battle(wolves()));
    let avoid = s.add(EncounterPhase::Gain("You avoid the pointless fight, have a money", money(dice(1, 0))));
    let ask = s.add(decision("Would you like to fight?", vec![("Hell yeah!", fight), ("Would rather not", avoid)]));
    let end = s.add(EncounterPhase::Line("This encounter is over"));
    let drain = s.add(stamina_drain());
    s.finish(vec![l0, ask, end, drain])
}

/// Wolves attack.
pub fn wolf_fight() -> (r: Encounter)
    ensures
        r.wf(),
        wolf_fight_script(r.script@),
        starts_at(r, seq![0usize, 1usize, 2usize]),
{
    let mut s = Script::new();
    let l0 = s.add(EncounterPhase::Line("Wolves attack!"));
    let fight = s.add(EncounterPhase::Battle(wolves()));
    let drain = s.add(stamina_drain());
    s.finish(vec![l0, fight, drain])
}

/// A herd of electric sheep: fight five of them, count them, or spook them.
pub fn electric_sheep() -> (r: Encounter)
    ensures
        r.wf(),
        sheep_script(r.script@),
        starts_at(r, seq![0usize, 4usize, 5usize, 6usize]),
{
    let mut herd: Vec<Enemy> = Vec::new();
    let mut i: u32 = 0;
    while i < 5
        invariant
            i <= 5,
            herd.len() == i,
            forall|k: int| 0 <= k < herd.len() ==> armed(#[trigger] herd[k]),
            forall|k: int| 0 <= k < herd.len() ==> foe(#[trigger] herd[k], "Half sheep half machine", 10, sheep_weapons()),
        decreases 5 - i,
    {
        let hoofs = melee("Hoofs of steel", dice(0, 1));
        let quandries = Weapon {
            name: "Philosophical quandries",
            damage: dice(1, 0),
            range: 2,
            cost: None,
        };
        let weapons = vec![hoofs, quandries];
        assert(weapons@ =~= sheep_weapons());
        herd.push(enemy("Half sheep half machine", 10, weapons));
        i = i + 1;
    }
    let mut s = Script::new();
    let l0 = s.add(EncounterPhase::Line("A herd of electric sheep are barreling at you"));
    let stand = s.add(EncounterPhase::Battle(battle_of(herd)));
    let count = s.add(
        EncounterPhase::Lose(
            "You start feeling drowsy, briefly dream of androids and the herd tramples you",
            stamina(20),
        ),
    );
    let spook = s.add(
        EncounterPhase::Trade(
            "You rattle a few shots into the air, they seem unimpressed",
            "You think of shooting, but don't have enough bullets. They seem to ignore you nonetheless.",
            bullets(6),
            PlayerResources::default(),
        ),
    );
    let ask = s.add(
        decision(
            "What to do in time of crisis?",
            vec![
                ("Stand your ground", stand),
                ("Attempt to count them", count),
                ("Spook them with your gun (6 bullets)", spook),
            ],
        ),
    );
    let after = s.add(EncounterPhase::Line("The semimechanical bovine have been dealt with, but at what cost"));
    let drain = s.add(stamina_drain());
    s.finish(vec![l0, ask, after, drain])
}

/// A travelling merchant selling bullets, food and a mystery box.
pub fn merchant() -> (r: Encounter)
    ensures
        r.wf(),
        merchant_script(r.script@),
        starts_at(r, seq![11usize, 12usize, 10usize, 13usize]),
        breaks_nested(r.script@, seq![11usize, 12usize, 10usize, 13usize]),
        loops_can_end(r.script@),
{
    let mut s = Script::new();
    let bullet_trade = s.add(
        EncounterPhase::Trade(
            "You get some ammo.",
            "Unfortunately your math rocks failed you today, the marchant gets huffy.",
            money(dice(0, 10)),
            bullets(6),
        ),
    );
    let food_trade = s.add(
        EncounterPhase::Trade(
            "You manage to gain some energy.",
            "You don't have enough money.",
            money(dice(0, 8)),
            stamina(4),
        ),
    );
    let box_trade = s.add(
        EncounterPhase::Trade(
            "You gain a mystery box!",
            "You don't have enough money.",
            money(dice(2, 0)),
            PlayerResources::default(),
        ),
    );
    let box_line = s.add(
        EncounterPhase::Line(
            "The box contains absolutely nothing, as you look back up, the merchant grins at you",
        ),
    );
    let leave = s.add(EncounterPhase::Break);
    let mystery_box = s.add(EncounterPhase::Loop(vec![box_trade, box_line, leave]));
    let open_coat = s.add(
        EncounterPhase::Line("The merchant opens his coat to reveal trinkets and baubles of all sorts"),
    );
    let engage = s.add(
        decision(
            "Do you wish to engage in trade?",
            vec![("Sure, why not.", open_coat), ("Maybe some other time.", leave)],
        ),
    );
    let wares = s.add(
        decision(
            "Anything in particular?",
            vec![
                ("Bullets, 6 for 10 dice value!", bullet_trade),
                ("Food, 4 points of stamina for 8 dice value", food_trade),
                ("Mystery box", mystery_box),
            ],
        ),
    );
    let again = s.add(EncounterPhase::Line("Still interested?"));
    let trade_loop = s.add(EncounterPhase::Loop(vec![engage, wares, again]));
    let l0 = s.add(EncounterPhase::Line("You see a merchant travelling down the road"));
    let l1 = s.add(EncounterPhase::Line("Interested in trade, are we?"));
    let l2 = s.add(EncounterPhase::Line("The merchant continues his journey."));
    s.finish(vec![l0, l1, trade_loop, l2])
}

/// A getaway car: chase it and rob it, or let it go.
pub fn chase() -> (r: Encounter)
    ensures
        r.wf(),
        chase_script(r.script@),
        starts_at(r, seq![6usize, 7usize]),
{
    let mut s = Script::new();
    let pursue = s.add(EncounterPhase::Line("You pick up the pace and pursue"));
    let car_weapons = vec![melee("Element of surprise", dice(1, 0))];
    assert(car_weapons@ =~= seq![melee_weapon("Element of surprise", dv(1, 0))]);
    let car = enemy("Getaway car", 10, car_weapons);
    let fight = s.add(EncounterPhase::Battle(battle_of(vec![car])));
    let loot = s.add(
        EncounterPhase::Gain(
            "You rummage the remains of the cart and find a fistful of dollars",
            money(dice(10, 0)),
        ),
    );
    let leave = s.add(EncounterPhase::Break);
    let yes = s.add(EncounterPhase::Loop(vec![pursue, fight, loot, leave]));
    let no = s.add(EncounterPhase::Line("You watch as the car leaves"));
    let l0 = s.add(EncounterPhase::Line("A getaway car kicks up dust as it almost runs you over"));
    let ask = s.add(decision("Pursue", vec![("Rob the robbers!", yes), ("Let them get away", no)]));
    s.finish(vec![l0, ask])
}

/// A sleepy town with a watering hole and a general store.
pub fn town() -> (r: Encounter)
    ensures
        r.wf(),
        town_script(r.script@),
        starts_at(r, seq![23usize, 22usize, 24usize]),
        breaks_nested(r.script@, seq![23usize, 22usize, 24usize]),
        loops_can_end(r.script@),
{
    let mut s = Script::new();
    let leave = s.add(EncounterPhase::Break);
    let bullet_trade = s.add(
        EncounterPhase::Trade(
            "You get some ammo.",
            "Unfortunately your math rocks failed you today, the marchant gets huffy.",
            money(dice(0, 10)),
            bullets(6),
        ),
    );
    let food_trade = s.add(
        EncounterPhase::Trade(
            "You manage to gain some energy.",
            "You don't have enough money.",
            money(dice(0, 8)),
            stamina(4),
        ),
    );
    let battery_buy = s.add(
        EncounterPhase::Trade(
            "It's a box of batteries. What did you expect?",
            "Dry on cash are we?",
            money(dice(0, 20)),
            batteries(dice(10, 0)),
        ),
    );
    let box_line = s.add(
        EncounterPhase::Line(
            "The box contains absolutely nothing, as you look back up, the merchant grins at you",
        ),
    );
    let battery_trade = s.add(EncounterPhase::Loop(vec![battery_buy, box_line, leave]));
    let open_coat = s.add(
        EncounterPhase::Line("The merchant opens his coat to reveal trinkets and baubles of all sorts"),
    );
    let engage = s.add(
        decision(
            "Do you wish to engage in trade?",
            vec![("Sure, why not.", open_coat), ("Maybe some other time.", leave)],
        ),
    );
    let wares = s.add(
        decision(
            "Anything in particular?",
            vec![
                ("Bullets, 6 for 10 dice value!", bullet_trade),
                ("Food, 4 points of stamina for 8 dice value", food_trade),
                ("Battery box, 10 for 20 dice value", battery_trade),
            ],
        ),
    );
    let again = s.add(EncounterPhase::Line("Still interested?"));
    let trade_loop = s.add(EncounterPhase::Loop(vec![engage, wares, again]));
    let trader = s.add(EncounterPhase::Line("You see a strangely familiar trader in his shack"));
    let pitch = s.add(EncounterPhase::Line("Interested in trade, are we?"));
    let emptier = s.add(EncounterPhase::Line("You leave, somehow feeling emptier than when you came in."));
    let general_store = s.add(EncounterPhase::Loop(vec![trader, pitch, trade_loop, emptier]));
    let drink = s.add(
        EncounterPhase::Trade(
            "You feel like you were born yesterday",
            "Unfortunately, capitalism has been deeply rooted here and you need to pay",
            money(dice(0, 10)),
            stamina(20),
        ),
    );
    let relief = s.add(
        decision(
            "10 dice points for a bit of relief",
            vec![("Yeah that seems fair", drink), ("Eh, that's a bit steep", leave)],
        ),
    );
    let forever = s.add(EncounterPhase::Line("You could stay here forever, maybe just one more day"));
    let drinking = s.add(EncounterPhase::Loop(vec![relief, forever]));
    let head_in = s.add(EncounterPhase::Line("You head to the closest hole in the wall, looking for a drink"));
    let watering_hole = s.add(EncounterPhase::Loop(vec![head_in, drinking, leave]));
    let where_to = s.add(
        decision(
            "Where to?",
            vec![("Get a drink", watering_hole), ("Stock up", general_store), ("head out", leave)],
        ),
    );
    let town_frame = vec![where_to];
    assert(town_frame@ =~= seq![where_to]);
    let town_loop = s.add(EncounterPhase::Loop(town_frame));
    let arrive = s.add(EncounterPhase::Line("You arrive in a sleepy town"));
    let worth = s.add(EncounterPhase::Line("This is a place worth visiting."));
    proof {
        lemma_town_loops(s.phases@);
    }
    s.finish(vec![arrive, town_loop, worth])
}

/// The encounters met while travelling.
pub fn encounters() -> (r: Vec<Encounter>)
    ensures
        r.len() == 6,
        forall|i: int| 0 <= i < r.len() ==> (#[trigger] r[i]).wf(),
        forall|i: int| 0 <= i < r.len() ==> catalog_entry(i, #[trigger] r[i]),
{
    vec![test_encounter(), wolf_fight(), electric_sheep(), merchant(), chase(), town()]
}

/// One of the travelling encounters, picked uniformly at random.
pub fn get_random_encounter() -> (r: Encounter)
    ensures
        r.wf(),
        exists|i: int| 0 <= i < 6 && catalog_entry(i, r),
{
    let mut all = encounters();
    let i = match random_index(all.len()) {
        Some(i) => i,
        None => 0,
    };
    let r = all.remove(i);
    assert(catalog_entry(i as int, r));
    r
}

/// The opening of a game.
pub fn game_start() -> (r: Encounter)
    ensures
        r.wf(),
{
    let mut s = Script::new();
    let l0 = s.add(EncounterPhase::Line("Welcome to the frontier. You are a cowboy in charge of a pupper"));
    let l1 = s.add(EncounterPhase::Line("Use the arrow keys to navigate and space or enter to select"));
    let l2 = s.add(EncounterPhase::Line("Adventure awaits"));
    let a0 = s.add(EncounterPhase::Line("That's the sprit!"));
    let a1 = s.add(EncounterPhase::Line("Aren't you a rascal! Too bad you have no agency"));
    let a2 = s.add(
        EncounterPhase::Line("Denying the quest, how heroic. Too bad there is a game to be played."),
    );
    let a3 = s.add(EncounterPhase::Line("Yeah sometimes it be like that. Hopefully you'll figure it out"));
    let ask = s.add(
        decision(
            "Start your adventure?",
            vec![("Simple yes", a0), ("Sarcastic yes", a1), ("No but actually yes", a2), ("I got confused", a3)],
        ),
    );
    let l3 = s.add(EncounterPhase::Line("Onwards!"));
    s.finish(vec![l0, l1, l2, ask, l3])
}

/// The closing of a game, once the player has died.
pub fn game_over() -> (r: Encounter)
    ensures
        r.wf(),
{
    let mut s = Script::new();
    let l0 = s.add(EncounterPhase::Line("Death comes to all. And did any of it matter in the end."));
    let l1 = s.add(EncounterPhase::Line("Well, sometimes it that's how the dice fall. Can't win them all."));
    let l2 = s.add(EncounterPhase::Line("Some people can't win them any."));
    let l3 = s.add(
        EncounterPhase::Line("Hopefully you found some enjoyment out of this. But I have to go now."),
    );
    let a0 = s.add(EncounterPhase::Line("Does it matter? Why? Do you really crave meaning that badly?"));
    let a1 = s.add(EncounterPhase::Line("It was fun while it lasted"));
    let a2 = s.add(EncounterPhase::Line("Pardner, *tips back"));
    let a3 = s.add(EncounterPhase::Line("I sincerely hope you figure it out"));
    let ask = s.add(
        decision(
            "Wait what?",
            vec![
                ("Who are you?", a0),
                ("Cheers", a1),
                ("*Nod and tip your hat", a2),
                ("I'm still confused, even moreso than before", a3),
            ],
        ),
    );
    s.finish(vec![l0, l1, l2, l3, ask])
}

} // verus!
