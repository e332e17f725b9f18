//! The player: a resource ledger, weapons, a position in the arena, and the
//! choices in flight during a battle round.

use vstd::prelude::*;

use crate::battle::{Weapon, BATTLE_ARENA_WIDTH};
use crate::dice_value::{valid_faces, DiceValue};

verus! {

#[derive(Debug, Clone, Copy, PartialEq, Eq, Structural, Hash)]
pub enum BattleAction {
    Move,
    Attack,
    Wait,
}

impl BattleAction {
    /// The word shown for the action.
    pub fn label(&self) -> (r: &'static str)
        ensures
            r == (match *self {
                BattleAction::Move => "move",
                BattleAction::Attack => "attack",
                BattleAction::Wait => "wait",
            }),
    {
        match self {
            BattleAction::Move => "move",
            BattleAction::Attack => "attack",
            BattleAction::Wait => "wait",
        }
    }
}

/// The actions offered at the start of a battle round, in order.
pub open spec fn battle_actions() -> Seq<BattleAction> {
    seq![BattleAction::Attack, BattleAction::Move, BattleAction::Wait]
}

/// `w` costs nothing, or `res` might pay its cost.
pub open spec fn weapon_usable(res: PlayerResources, w: Weapon) -> bool {
    match w.cost {
        None => true,
        Some(c) => res.affords(c),
    }
}

/// The weapons of `ws` that `res` can use, in order.
pub open spec fn usable_weapons(res: PlayerResources, ws: Seq<Weapon>) -> Seq<Weapon>
    decreases ws.len(),
{
    if ws.len() == 0 {
        Seq::empty()
    } else {
        let before = usable_weapons(res, ws.drop_last());
        if weapon_usable(res, ws.last()) {
            before.push(ws.last())
        } else {
            before
        }
    }
}

/// The lanes the player can move to from `pos`: the one to the left, then the
/// one to the right, when the arena has them.
pub open spec fn movable_positions(pos: u32) -> Seq<u32> {
    let left = if pos > 0 { seq![(pos - 1) as u32] } else { Seq::empty() };
    let right = if pos < BATTLE_ARENA_WIDTH - 1 { seq![(pos + 1) as u32] } else { Seq::empty() };
    left + right
}

/// `w` rolls its damage into a `u32`, and so does each part of its cost.
pub open spec fn weapon_ok(w: Weapon) -> bool {
    &&& w.damage.rollable()
    &&& (w.cost matches Some(c) ==> c.money.rollable() && c.batteries.rollable())
}

/// The usable weapons are weapons of `ws`, so they are usable too.
pub proof fn lemma_usable_weapons_ok(res: PlayerResources, ws: Seq<Weapon>)
    requires
        forall|k: int| 0 <= k < ws.len() ==> weapon_ok(#[trigger] ws[k]),
    ensures
        forall|k: int|
            0 <= k < usable_weapons(res, ws).len() ==> weapon_ok(#[trigger] usable_weapons(res, ws)[k]),
    decreases ws.len(),
{
    if ws.len() > 0 {
        let rest = ws.drop_last();
        assert forall|k: int| 0 <= k < rest.len() implies weapon_ok(#[trigger] rest[k]) by {
            assert(rest[k] == ws[k]);
        }
        lemma_usable_weapons_ok(res, rest);
        assert(weapon_ok(ws[ws.len() - 1]));
        let u = usable_weapons(res, ws);
        let prior = usable_weapons(res, rest);
        assert forall|k: int| 0 <= k < u.len() implies weapon_ok(#[trigger] u[k]) by {
            if k < prior.len() {
                assert(u[k] == prior[k]);
            } else {
                assert(u[k] == ws.last());
            }
        }
    }
}

#[derive(Debug)]
pub struct Player {
    pub resources: PlayerResources,
    pub decision: Option<usize>,
    pub weapons: Vec<Weapon>,
    pub selected_action: Option<BattleAction>,
    pub selected_weapon: Option<Weapon>,
    pub position: u32,
}

impl Player {
    /// The player's resources are well formed and every weapon can be used.
    pub open spec fn wf(&self) -> bool {
        &&& self.resources.wf()
        &&& forall|k: int| 0 <= k < self.weapons.len() ==> weapon_ok(#[trigger] self.weapons[k])
        &&& (self.selected_weapon matches Some(w) ==> weapon_ok(w))
    }

    /// A fresh player: 100 stamina, `5d6` money and batteries, 15 bullets, and
    /// three weapons: a sidearm paid in bullets, a taser paid in batteries,
    /// and bare fists.
    pub fn new() -> (r: Player)
        ensures
            r.resources == (PlayerResources {
                stamina: 100,
                money: DiceValue { dice: 5, constant: 0 },
                bullets: 15,
                batteries: DiceValue { dice: 5, constant: 0 },
            }),
            r.weapons.len() == 3,
            r.weapons[0].range == 5,
            r.weapons[0].damage == (DiceValue { dice: 1, constant: 0 }),
            r.weapons[0].cost == Some(PlayerResources { bullets: 1, ..PlayerResources::empty() }),
            r.weapons[1].range == 2,
            r.weapons[1].damage == (DiceValue { dice: 1, constant: 0 }),
            r.weapons[1].cost == Some(
                PlayerResources {
                    batteries: DiceValue { dice: 0, constant: 4 },
                    ..PlayerResources::empty()
                },
            ),
            r.weapons[2].range == 1,
            r.weapons[2].damage == (DiceValue { dice: 0, constant: 1 }),
            r.weapons[2].cost is None,
            r.decision is None,
            r.selected_action is None,
            r.selected_weapon is None,
            r.position == 0,
            r.wf(),
    {
        let none = PlayerResources::default();
        Player {
            resources: PlayerResources {
                stamina: 100,
                money: DiceValue { dice: 5, constant: 0 },
                bullets: 15,
                batteries: DiceValue { dice: 5, constant: 0 },
            },
            decision: None,
            weapons: vec![
                Weapon {
                    name: "Trusty sidearm",
                    damage: DiceValue { dice: 1, constant: 0 },
                    range: 5,
                    cost: Some(PlayerResources { bullets: 1, ..none }),
                },
                Weapon {
                    name: "Still somewhat trusty taser",
                    damage: DiceValue { dice: 1, constant: 0 },
                    range: 2,
                    cost: Some(
                        PlayerResources { batteries: DiceValue { dice: 0, constant: 4 }, ..none },
                    ),
                },
                Weapon {
                    name: "Knuckle sandwich",
                    damage: DiceValue { dice: 0, constant: 1 },
                    range: 1,
                    cost: None,
                },
            ],
            selected_action: None,
            selected_weapon: None,
            position: 0,
        }
    }

    /// Whether the player has no stamina left.
    pub fn is_dead(&self) -> (r: bool)
        ensures
            r == (self.resources.stamina == 0),
    {
        self.resources.stamina == 0
    }

    /// Records the index of the option the player picked.
    pub fn choose_option(&mut self, index: usize)
        ensures
            *final(self) == (Player { decision: Some(index), ..*old(self) }),
    {
        self.decision = Some(index);
    }

    /// Takes the recorded pick, if any, leaving none.
    pub fn drain_decision(&mut self) -> (r: Option<usize>)
        ensures
            r == old(self).decision,
            *final(self) == (Player { decision: None, ..*old(self) }),
    {
        let r = self.decision;
        self.decision = None;
        r
    }

    /// The actions offered at the start of a battle round.
    pub fn get_battle_actions(&self) -> (r: Vec<BattleAction>)
        ensures
            r@ == battle_actions(),
    {
        let r = vec![BattleAction::Attack, BattleAction::Move, BattleAction::Wait];
        assert(r@ =~= battle_actions());
        r
    }

    /// The weapons the player can use: those that cost nothing, and those
    /// whose cost the player's resources might cover.
    pub fn get_weapons(&self) -> (r: Vec<Weapon>)
        ensures
            r@ == usable_weapons(self.resources, self.weapons@),
    {
        let mut r: Vec<Weapon> = Vec::new();
        let mut i: usize = 0;
        while i < self.weapons.len()
            invariant
                i <= self.weapons.len(),
                r@ == usable_weapons(self.resources, self.weapons@.take(i as int)),
            decreases self.weapons.len() - i,
        {
            let w = self.weapons[i];
            let usable = match &w.cost {
                None => true,
                Some(c) => self.resources.could_afford(c),
            };
            if usable {
                r.push(w);
            }
            proof {
                assert(self.weapons@.take(i + 1).drop_last() =~= self.weapons@.take(i as int));
            }
            i = i + 1;
        }
        assert(self.weapons@.take(i as int) =~= self.weapons@);
        r
    }

    /// The lanes the player can move to, each with its direction.
    pub fn get_movable_locations(&self) -> (r: Vec<(&'static str, u32)>)
        ensures
            r@.map_values(|l: (&'static str, u32)| l.1) == movable_positions(self.position),
            forall|k: int|
                0 <= k < r.len() ==> (#[trigger] r[k]).0 == (if r[k].1 < self.position {
                    "left"
                } else {
                    "right"
                }),
    {
        let mut r: Vec<(&'static str, u32)> = Vec::new();
        if self.position > 0 {
            r.push(("left", self.position - 1));
        }
        if self.position < BATTLE_ARENA_WIDTH - 1 {
            r.push(("right", self.position + 1));
        }
        assert(r@.map_values(|l: (&'static str, u32)| l.1) =~= movable_positions(self.position));
        r
    }

    /// Forgets the action and weapon picked this round.
    pub fn clear_selections(&mut self)
        ensures
            *final(self) == (Player { selected_action: None, selected_weapon: None, ..*old(self) }),
    {
        self.selected_action = None;
        self.selected_weapon = None;
    }
}

#[derive(Debug, Clone, Copy, PartialEq, Eq, Structural, Hash)]
pub struct PlayerResources {
    pub stamina: u32,
    pub money: DiceValue,
    pub bullets: u32,
    pub batteries: DiceValue,
}

impl Default for PlayerResources {
    fn default() -> (r: PlayerResources)
        ensures
            r == PlayerResources::empty(),
    {
        PlayerResources {
            stamina: 0,
            money: DiceValue { dice: 0, constant: 0 },
            bullets: 0,
            batteries: DiceValue { dice: 0, constant: 0 },
        }
    }
}

/// The result of limit `v`, computed without any cast.
fn exact_limit(v: &DiceValue) -> (r: i64)
    ensures
        r == v.limit(),
{
    6 * v.dice as i64 + v.constant as i64
}

impl PlayerResources {
    /// No resources at all.
    pub open spec fn empty() -> PlayerResources {
        PlayerResources {
            stamina: 0,
            money: DiceValue { dice: 0, constant: 0 },
            bullets: 0,
            batteries: DiceValue { dice: 0, constant: 0 },
        }
    }

    /// No dice-valued resource holds a negative constant, and each can be
    /// rolled into a `u32`.
    pub open spec fn wf(self) -> bool {
        self.money.wf() && self.batteries.wf()
    }

    /// `self` might cover `other`: exact comparison of the fixed resources,
    /// comparison of the theoretical limits of the dice-valued ones.
    pub open spec fn affords(self, other: PlayerResources) -> bool {
        &&& self.stamina >= other.stamina
        &&& self.bullets >= other.bullets
        &&& self.money.limit() >= other.money.limit()
        &&& self.batteries.limit() >= other.batteries.limit()
    }

    /// `self` and `other` can be added without leaving their types.
    pub open spec fn can_add(self, other: PlayerResources) -> bool {
        &&& self.stamina + other.stamina <= u32::MAX
        &&& self.bullets + other.bullets <= u32::MAX
        &&& self.money.dice + other.money.dice <= u32::MAX
        &&& self.batteries.dice + other.batteries.dice <= u32::MAX
        &&& i32::MIN <= self.money.constant + other.money.constant <= i32::MAX
        &&& i32::MIN <= self.batteries.constant + other.batteries.constant <= i32::MAX
    }

    /// `self` after paying `other`, the dice-valued resources having been
    /// drained to `money` and `batteries`.
    pub open spec fn paid(self, other: PlayerResources, money: DiceValue, batteries: DiceValue) -> PlayerResources {
        PlayerResources {
            stamina: (self.stamina - other.stamina) as u32,
            money,
            bullets: (self.bullets - other.bullets) as u32,
            batteries,
        }
    }

    /// `self` with every resource of `other` added.
    pub open spec fn plus(self, other: PlayerResources) -> PlayerResources {
        PlayerResources {
            stamina: (self.stamina + other.stamina) as u32,
            money: DiceValue {
                dice: (self.money.dice + other.money.dice) as u32,
                constant: (self.money.constant + other.money.constant) as i32,
            },
            bullets: (self.bullets + other.bullets) as u32,
            batteries: DiceValue {
                dice: (self.batteries.dice + other.batteries.dice) as u32,
                constant: (self.batteries.constant + other.batteries.constant) as i32,
            },
        }
    }

    /// `before` pays `other` with certainty: it affords it, and neither cost
    /// of money nor of batteries has dice nor exceeds the constant it is
    /// drained from.
    pub open spec fn sure_to_pay(before: PlayerResources, other: PlayerResources) -> bool {
        &&& before.affords(other)
        &&& other.money.dice == 0 && other.batteries.dice == 0
        &&& other.money.constant <= before.money.constant
        &&& other.batteries.constant <= before.batteries.constant
    }

    /// What `remove` does: `paid` says whether `before` affords `other`.
    /// When it does, the cost of money and of batteries is rolled and each
    /// resource drained to cover it; `after` is `before` having paid when both
    /// drains succeeded, and `before` unchanged otherwise.
    pub open spec fn removal(before: PlayerResources, other: PlayerResources, after: PlayerResources, paid: bool) -> bool {
        &&& paid == before.affords(other)
        &&& !paid ==> after == before
        &&& paid ==> exists|m: Option<DiceValue>, b: Option<DiceValue>|
            drain_outcome(before.money, other.money, m) && drain_outcome(before.batteries, other.batteries, b)
                && after == (match (m, b) {
                (Some(x), Some(y)) => before.paid(other, x, y),
                _ => before,
            })
        &&& Self::sure_to_pay(before, other) ==> after == before.paid(other, before.money, before.batteries)
    }

    /// What `force_remove` does: when `before` affords `other`, the cost of
    /// money and of batteries is rolled and each resource drained to cover
    /// it, a drain that fell short leaving that resource at zero, and the
    /// fixed resources are paid; `ok` says whether both drains succeeded.
    /// Otherwise nothing changes and `ok` is false.
    pub open spec fn force_removal(before: PlayerResources, other: PlayerResources, after: PlayerResources, ok: bool) -> bool {
        &&& !before.affords(other) ==> !ok && after == before
        &&& before.affords(other) ==> exists|m: Option<DiceValue>, b: Option<DiceValue>|
            drain_outcome(before.money, other.money, m) && drain_outcome(before.batteries, other.batteries, b)
                && ok == (m is Some && b is Some) && after == before.paid(
                other,
                m.unwrap_or(DiceValue { dice: 0, constant: 0 }),
                b.unwrap_or(DiceValue { dice: 0, constant: 0 }),
            )
        &&& Self::sure_to_pay(before, other) ==> ok && after == before.paid(other, before.money, before.batteries)
    }

    /// What a drain of `old_value` may leave: the same constant, no more dice.
    pub open spec fn drained_from(new_value: DiceValue, old_value: DiceValue) -> bool {
        new_value.constant == old_value.constant && new_value.dice <= old_value.dice
    }

    /// Adds every resource of `other`.
    pub fn add(&mut self, other: PlayerResources)
        requires
            old(self).can_add(other),
        ensures
            final(self).stamina == old(self).stamina + other.stamina,
            final(self).bullets == old(self).bullets + other.bullets,
            final(self).money.dice == old(self).money.dice + other.money.dice,
            final(self).money.constant == old(self).money.constant + other.money.constant,
            final(self).batteries.dice == old(self).batteries.dice + other.batteries.dice,
            final(self).batteries.constant == old(self).batteries.constant
                + other.batteries.constant,
            *final(self) == old(self).plus(other),
    {
        self.stamina = self.stamina + other.stamina;
        self.money.add_assign(other.money);
        self.batteries.add_assign(other.batteries);
        self.bullets = self.bullets + other.bullets;
    }

    /// Whether `other` can be added to `self`; see `can_add`.
    pub fn can_take(&self, other: &PlayerResources) -> (r: bool)
        ensures
            r == self.can_add(*other),
    {
        self.stamina as u64 + other.stamina as u64 <= u32::MAX as u64
            && self.bullets as u64 + other.bullets as u64 <= u32::MAX as u64
            && self.money.dice as u64 + other.money.dice as u64 <= u32::MAX as u64
            && self.batteries.dice as u64 + other.batteries.dice as u64 <= u32::MAX as u64
            && i32::MIN as i64 <= self.money.constant as i64 + other.money.constant as i64
            && self.money.constant as i64 + other.money.constant as i64 <= i32::MAX as i64
            && i32::MIN as i64 <= self.batteries.constant as i64 + other.batteries.constant as i64
            && self.batteries.constant as i64 + other.batteries.constant as i64 <= i32::MAX as i64
    }

    /// Whether `self` might cover `other`; see `affords`.
    pub fn could_afford(&self, other: &PlayerResources) -> (r: bool)
        ensures
            r == self.affords(*other),
    {
        self.stamina >= other.stamina && self.bullets >= other.bullets && exact_limit(&self.money)
            >= exact_limit(&other.money) && exact_limit(&self.batteries) >= exact_limit(
            &other.batteries,
        )
    }

    /// Pays `other` given what the drains of money and batteries left
    /// (`None` for a drain that fell short). When `self` affords `other` and
    /// both drains succeeded, the fixed resources are reduced and the drained
    /// values taken; otherwise nothing changes. Returns whether `self` affords
    /// `other`.
    pub fn remove_with(
        &mut self,
        other: PlayerResources,
        money_left: Option<DiceValue>,
        batteries_left: Option<DiceValue>,
    ) -> (r: bool)
        ensures
            r == old(self).affords(other),
            *final(self) == (match (money_left, batteries_left) {
                (Some(m), Some(b)) if r => old(self).paid(other, m, b),
                _ => *old(self),
            }),
    {
        let can_afford = self.could_afford(&other);
        if can_afford {
            match (money_left, batteries_left) {
                (Some(m), Some(b)) => {
                    self.money = m;
                    self.batteries = b;
                    self.stamina = self.stamina - other.stamina;
                    self.bullets = self.bullets - other.bullets;
                },
                _ => {},
            }
        }
        can_afford
    }

    /// Pays `other` given what the drains of money and batteries left. When
    /// `self` affords `other`, the fixed resources are reduced whatever the
    /// drains gave, and a drain that fell short leaves that resource at zero;
    /// otherwise nothing changes. Returns whether `self` affords `other` and
    /// both drains succeeded.
    pub fn force_remove_with(
        &mut self,
        other: PlayerResources,
        money_left: Option<DiceValue>,
        batteries_left: Option<DiceValue>,
    ) -> (r: bool)
        ensures
            r == (old(self).affords(other) && money_left is Some && batteries_left is Some),
            *final(self) == (if old(self).affords(other) {
                old(self).paid(
                    other,
                    money_left.unwrap_or(DiceValue { dice: 0, constant: 0 }),
                    batteries_left.unwrap_or(DiceValue { dice: 0, constant: 0 }),
                )
            } else {
                *old(self)
            }),
    {
        if self.could_afford(&other) {
            self.money = match money_left {
                Some(m) => m,
                None => DiceValue { dice: 0, constant: 0 },
            };
            self.batteries = match batteries_left {
                Some(b) => b,
                None => DiceValue { dice: 0, constant: 0 },
            };
            self.stamina = self.stamina - other.stamina;
            self.bullets = self.bullets - other.bullets;
            money_left.is_some() && batteries_left.is_some()
        } else {
            false
        }
    }

    /// Pays `other`: when `self` affords it, the cost of money and batteries
    /// is rolled and those resources are drained to cover it; only if both
    /// drains succeed are they taken and the fixed resources reduced. Returns
    /// whether `self` affords `other`.
    pub fn remove(&mut self, other: PlayerResources) -> (r: bool)
        requires
            other.money.rollable(),
            other.batteries.rollable(),
        ensures
            Self::removal(*old(self), other, *final(self), r),
            old(self).wf() ==> final(self).wf(),
    {
        if self.could_afford(&other) {
            let money_left = drain_for(&self.money, &other.money);
            let batteries_left = drain_for(&self.batteries, &other.batteries);
            self.remove_with(other, money_left, batteries_left)
        } else {
            false
        }
    }

    /// Pays `other` come what may: when `self` affords it, the cost of money
    /// and batteries is rolled and those resources drained to cover it, a
    /// drain that falls short leaving that resource at zero, and the fixed
    /// resources are reduced. Returns whether `self` affords `other` and both
    /// drains succeeded.
    pub fn force_remove(&mut self, other: PlayerResources) -> (r: bool)
        requires
            other.money.rollable(),
            other.batteries.rollable(),
        ensures
            Self::force_removal(*old(self), other, *final(self), r),
            old(self).wf() ==> final(self).wf(),
    {
        if self.could_afford(&other) {
            let money_left = drain_for(&self.money, &other.money);
            let batteries_left = drain_for(&self.batteries, &other.batteries);
            self.force_remove_with(other, money_left, batteries_left)
        } else {
            false
        }
    }
}

/// `r` is what draining `held` to cover a fresh roll of `cost` may leave:
/// for some faces of the cost's dice and some faces of the held dice.
pub open spec fn drain_outcome(held: DiceValue, cost: DiceValue, r: Option<DiceValue>) -> bool {
    exists|cost_faces: Seq<u32>, held_faces: Seq<u32>|
        cost_faces.len() == cost.dice && valid_faces(cost_faces) && held_faces.len() == held.dice
            && valid_faces(held_faces) && r == #[trigger] held.drained(cost.total(cost_faces), held_faces)
}

/// Rolls `cost` and drains `held` to cover it.
fn drain_for(held: &DiceValue, cost: &DiceValue) -> (r: Option<DiceValue>)
    requires
        cost.rollable(),
    ensures
        drain_outcome(*held, *cost, r),
        r matches Some(v) ==> PlayerResources::drained_from(v, *held),
        cost.dice == 0 && cost.constant <= held.constant ==> r == Some(*held),
{
    let target = cost.roll();
    let ghost cost_faces = choose|f: Seq<u32>|
        f.len() == cost.dice && valid_faces(f) && target == cost.total(f);
    let r = held.drained_to_match(target);
    let ghost held_faces = choose|f: Seq<u32>|
        f.len() == held.dice && valid_faces(f) && r == held.drained(target as int, f);
    proof {
        if cost.dice == 0 {
            assert(cost_faces =~= Seq::<u32>::empty());
        }
        assert(r == held.drained(cost.total(cost_faces), held_faces));
    }
    r
}

/// Any resource set affords exactly itself.
pub proof fn lemma_affords_itself(a: PlayerResources)
    ensures
        a.affords(a),
{
}

} // verus!
