//! Lane-based battles: weapons, enemies, and the lanes they fight from.

use vstd::prelude::*;

use crate::dice_value::DiceValue;
use crate::player::PlayerResources;

verus! {

/// Number of lanes in the arena.
pub const BATTLE_ARENA_WIDTH: u32 = 4;

/// Depth of the arena: how far from the player an enemy starts.
pub const BATTLE_ARENA_DEPTH: u32 = 3;

#[derive(Debug, Clone, Copy, PartialEq, Eq, Hash)]
pub struct Weapon {
    pub name: &'static str,
    pub damage: DiceValue,
    pub range: u32,
    pub cost: Option<PlayerResources>,
}

impl Default for Weapon {
    /// A nameless melee weapon that deals no damage and costs nothing.
    fn default() -> (r: Weapon)
        ensures
            r.damage == (DiceValue { dice: 0, constant: 0 }),
            r.range == 1,
            r.cost is None,
    {
        Weapon { name: "", damage: DiceValue { dice: 0, constant: 0 }, range: 1, cost: None }
    }
}

#[derive(Debug, Hash)]
pub struct Enemy {
    pub name: &'static str,
    pub health: u32,
    pub weapons: Vec<Weapon>,
    pub position_x: u32,
    pub position_y: u32,
}

impl Enemy {
    /// `self` and `o` agree on every field, weapons included.
    pub open spec fn same_as(self, o: Enemy) -> bool {
        &&& self.name == o.name
        &&& self.health == o.health
        &&& self.weapons@ == o.weapons@
        &&& self.position_x == o.position_x
        &&& self.position_y == o.position_y
    }
}

impl Clone for Enemy {
    fn clone(&self) -> (r: Enemy)
        ensures
            r.same_as(*self),
    {
        let mut weapons: Vec<Weapon> = Vec::new();
        let mut i: usize = 0;
        while i < self.weapons.len()
            invariant
                i <= self.weapons.len(),
                weapons@ == self.weapons@.take(i as int),
            decreases self.weapons.len() - i,
        {
            weapons.push(self.weapons[i]);
            i = i + 1;
            assert(weapons@ =~= self.weapons@.take(i as int));
        }
        assert(weapons@ =~= self.weapons@);
        Enemy {
            name: self.name,
            health: self.health,
            weapons,
            position_x: self.position_x,
            position_y: self.position_y,
        }
    }
}

impl Default for Enemy {
    /// A foe of ten health with one close-range weapon dealing `1d6`, placed
    /// at the far corner of the arena.
    fn default() -> (r: Enemy)
        ensures
            r.health == 10,
            r.weapons.len() == 1,
            r.weapons[0].damage == (DiceValue { dice: 1, constant: 0 }),
            r.weapons[0].range == 1,
            r.weapons[0].cost is None,
            r.position_x == BATTLE_ARENA_WIDTH,
            r.position_y == BATTLE_ARENA_DEPTH,
    {
        Enemy {
            name: "Mystery foe",
            health: 10,
            weapons: vec![
                Weapon {
                    name: "Element of surprise",
                    damage: DiceValue { dice: 1, constant: 0 },
                    range: 1,
                    cost: None,
                },
            ],
            position_x: BATTLE_ARENA_WIDTH,
            position_y: BATTLE_ARENA_DEPTH,
        }
    }
}

/// The number of occupied lanes.
pub open spec fn occupied(lanes: Seq<Option<Enemy>>) -> nat
    decreases lanes.len(),
{
    if lanes.len() == 0 {
        0
    } else {
        (if lanes[0] is Some { 1nat } else { 0nat }) + occupied(lanes.drop_first())
    }
}

/// Some lane is empty.
pub open spec fn has_empty(lanes: Seq<Option<Enemy>>) -> bool {
    exists|i: int| 0 <= i < lanes.len() && #[trigger] lanes[i] is None
}

/// The lanes with every enemy of zero health taken out.
pub open spec fn cleaned(lanes: Seq<Option<Enemy>>) -> Seq<Option<Enemy>> {
    Seq::new(
        lanes.len(),
        |i: int|
            match lanes[i] {
                Some(e) => if e.health == 0 { None } else { Some(e) },
                None => None,
            },
    )
}

/// The lanes with `e` put into the first empty one; unchanged when none is.
pub open spec fn placed(lanes: Seq<Option<Enemy>>, e: Enemy) -> Seq<Option<Enemy>>
    decreases lanes.len(),
{
    if lanes.len() == 0 {
        lanes
    } else if lanes[0] is None {
        lanes.update(0, Some(e))
    } else {
        seq![lanes[0]] + placed(lanes.drop_first(), e)
    }
}

/// Lanes and queue after enemies are taken from the back of the queue, one at
/// a time, into the first empty lane, for as long as a lane is empty and the
/// queue is not.
pub open spec fn filled(lanes: Seq<Option<Enemy>>, unused: Seq<Enemy>) -> (
    Seq<Option<Enemy>>,
    Seq<Enemy>,
)
    decreases unused.len(),
{
    if has_empty(lanes) && unused.len() > 0 {
        filled(placed(lanes, unused.last()), unused.drop_last())
    } else {
        (lanes, unused)
    }
}

/// The health of the enemies in the lanes, together.
pub open spec fn lanes_health(lanes: Seq<Option<Enemy>>) -> nat
    decreases lanes.len(),
{
    if lanes.len() == 0 {
        0
    } else {
        (match lanes[0] {
            Some(e) => e.health as nat,
            None => 0nat,
        }) + lanes_health(lanes.drop_first())
    }
}

/// The health of the enemies in the queue, together.
pub open spec fn queue_health(unused: Seq<Enemy>) -> nat
    decreases unused.len(),
{
    if unused.len() == 0 {
        0
    } else {
        queue_health(unused.drop_last()) + unused.last().health as nat
    }
}

/// `e` after taking `damage`, its health stopping at zero.
pub open spec fn struck(e: Enemy, damage: u32) -> Enemy {
    Enemy { health: if damage < e.health { (e.health - damage) as u32 } else { 0 }, ..e }
}

/// Every weapon of `e` can be rolled into a `u32`.
pub open spec fn armed(e: Enemy) -> bool {
    forall|k: int| 0 <= k < e.weapons.len() ==> (#[trigger] e.weapons[k]).damage.rollable()
}

/// Every enemy in the lanes is armed.
pub open spec fn lanes_armed(lanes: Seq<Option<Enemy>>) -> bool {
    forall|i: int| 0 <= i < lanes.len() ==> (#[trigger] lanes[i] matches Some(e) ==> armed(e))
}

/// Every queued enemy is armed.
pub open spec fn queue_armed(unused: Seq<Enemy>) -> bool {
    forall|i: int| 0 <= i < unused.len() ==> armed(#[trigger] unused[i])
}

proof fn lemma_placed_armed(lanes: Seq<Option<Enemy>>, e: Enemy)
    requires
        lanes_armed(lanes),
        armed(e),
    ensures
        lanes_armed(placed(lanes, e)),
    decreases lanes.len(),
{
    if lanes.len() > 0 && lanes[0] is Some {
        let rest = lanes.drop_first();
        assert(lanes_armed(rest)) by {
            assert forall|i: int| 0 <= i < rest.len() implies (#[trigger] rest[i] matches Some(x)
                ==> armed(x)) by {
                assert(rest[i] == lanes[i + 1]);
            }
        }
        lemma_placed_armed(rest, e);
        let p = placed(lanes, e);
        assert forall|i: int| 0 <= i < p.len() implies (#[trigger] p[i] matches Some(x) ==> armed(
            x,
        )) by {
            if i > 0 {
                assert(p[i] == placed(rest, e)[i - 1]);
            }
        }
    }
}

/// Filling the lanes and cleaning them out keep every enemy armed.
proof fn lemma_filled_armed(lanes: Seq<Option<Enemy>>, unused: Seq<Enemy>)
    requires
        lanes_armed(lanes),
        queue_armed(unused),
    ensures
        lanes_armed(filled(lanes, unused).0),
        queue_armed(filled(lanes, unused).1),
        lanes_armed(cleaned(lanes)),
    decreases unused.len(),
{
    let c = cleaned(lanes);
    assert forall|i: int| 0 <= i < c.len() implies (#[trigger] c[i] matches Some(x) ==> armed(
        x,
    )) by {
        assert(lanes[i] matches Some(x) ==> armed(x));
    }
    if has_empty(lanes) && unused.len() > 0 {
        assert(armed(unused[unused.len() - 1]));
        lemma_placed_armed(lanes, unused.last());
        let rest = unused.drop_last();
        assert forall|i: int| 0 <= i < rest.len() implies armed(#[trigger] rest[i]) by {
            assert(rest[i] == unused[i]);
        }
        lemma_filled_armed(placed(lanes, unused.last()), rest);
    }
}

/// An enemy in lane `lane` can be reached by a weapon of range `range` from
/// the player's position `pos`.
pub open spec fn in_range(lane: int, pos: u32, e: Enemy, range: u32) -> bool {
    let d = lane - pos + e.position_y;
    (if d < 0 { -d } else { d }) <= range
}

/// The lanes, among the first `n`, whose enemy is in range, in lane order.
pub open spec fn target_lanes_upto(lanes: Seq<Option<Enemy>>, pos: u32, range: u32, n: nat) -> Seq<int>
    decreases n,
{
    if n == 0 {
        Seq::empty()
    } else {
        let before = target_lanes_upto(lanes, pos, range, (n - 1) as nat);
        match lanes[n - 1] {
            Some(e) => if in_range(n - 1, pos, e, range) { before.push(n - 1) } else { before },
            None => before,
        }
    }
}

/// The lanes whose enemy is in range, in lane order.
pub open spec fn target_lanes(lanes: Seq<Option<Enemy>>, pos: u32, range: u32) -> Seq<int> {
    target_lanes_upto(lanes, pos, range, lanes.len())
}

proof fn lemma_target_lanes_valid(lanes: Seq<Option<Enemy>>, pos: u32, range: u32, n: nat)
    requires
        n <= lanes.len(),
    ensures
        forall|k: int| 0 <= k < target_lanes_upto(lanes, pos, range, n).len() ==> {
            let l = #[trigger] target_lanes_upto(lanes, pos, range, n)[k];
            0 <= l < n && lanes[l] is Some && in_range(l, pos, lanes[l]->Some_0, range)
        },
    decreases n,
{
    if n > 0 {
        lemma_target_lanes_valid(lanes, pos, range, (n - 1) as nat);
    }
}

/// Each lane listed as in range holds an enemy.
pub proof fn lemma_target_lane_holds(lanes: Seq<Option<Enemy>>, pos: u32, range: u32, k: int)
    requires
        0 <= k < target_lanes(lanes, pos, range).len(),
    ensures
        0 <= target_lanes(lanes, pos, range)[k] < lanes.len(),
        lanes[target_lanes(lanes, pos, range)[k]] is Some,
{
    lemma_target_lanes_valid(lanes, pos, range, lanes.len());
    let l = target_lanes(lanes, pos, range)[k];
}

/// One operation on the lanes of a battle.
pub enum LaneOp {
    PlaceEnemies,
    CleanOutDead,
}

/// Lanes and queue after the operations `ops`, in order.
pub open spec fn after_ops(lanes: Seq<Option<Enemy>>, unused: Seq<Enemy>, ops: Seq<LaneOp>) -> (
    Seq<Option<Enemy>>,
    Seq<Enemy>,
)
    decreases ops.len(),
{
    if ops.len() == 0 {
        (lanes, unused)
    } else {
        let next = match ops[0] {
            LaneOp::PlaceEnemies => filled(lanes, unused),
            LaneOp::CleanOutDead => (cleaned(lanes), unused),
        };
        after_ops(next.0, next.1, ops.drop_first())
    }
}

/// Lanes and queue after an attack on lane `lane` for `damage`: the target is
/// struck, the dead are taken out and the lanes filled again.
pub open spec fn after_attack(lanes: Seq<Option<Enemy>>, unused: Seq<Enemy>, lane: int, damage: u32) -> (
    Seq<Option<Enemy>>,
    Seq<Enemy>,
) {
    filled(cleaned(lanes.update(lane, Some(struck(lanes[lane]->Some_0, damage)))), unused)
}

proof fn lemma_occupied_bounded(lanes: Seq<Option<Enemy>>)
    ensures
        occupied(lanes) <= lanes.len(),
    decreases lanes.len(),
{
    if lanes.len() > 0 {
        lemma_occupied_bounded(lanes.drop_first());
    }
}

proof fn lemma_cleaned(lanes: Seq<Option<Enemy>>)
    ensures
        cleaned(lanes).len() == lanes.len(),
        occupied(cleaned(lanes)) <= occupied(lanes),
        lanes_health(cleaned(lanes)) == lanes_health(lanes),
    decreases lanes.len(),
{
    if lanes.len() > 0 {
        lemma_cleaned(lanes.drop_first());
        assert(cleaned(lanes).drop_first() =~= cleaned(lanes.drop_first()));
    }
}

proof fn lemma_placed(lanes: Seq<Option<Enemy>>, e: Enemy)
    requires
        has_empty(lanes),
    ensures
        placed(lanes, e).len() == lanes.len(),
        occupied(placed(lanes, e)) == occupied(lanes) + 1,
        lanes_health(placed(lanes, e)) == lanes_health(lanes) + e.health,
    decreases lanes.len(),
{
    let p = placed(lanes, e);
    if lanes[0] is None {
        assert(p.drop_first() =~= lanes.drop_first());
    } else {
        let rest = lanes.drop_first();
        let i = choose|i: int| 0 <= i < lanes.len() && #[trigger] lanes[i] is None;
        assert(rest[i - 1] is None);
        lemma_placed(rest, e);
        assert(p.drop_first() =~= placed(rest, e));
    }
}

proof fn lemma_filled(lanes: Seq<Option<Enemy>>, unused: Seq<Enemy>)
    ensures
        filled(lanes, unused).0.len() == lanes.len(),
        occupied(filled(lanes, unused).0) + filled(lanes, unused).1.len() == occupied(lanes)
            + unused.len(),
        lanes_health(filled(lanes, unused).0) + queue_health(filled(lanes, unused).1)
            == lanes_health(lanes) + queue_health(unused),
    decreases unused.len(),
{
    if has_empty(lanes) && unused.len() > 0 {
        lemma_placed(lanes, unused.last());
        lemma_filled(placed(lanes, unused.last()), unused.drop_last());
    }
}

pub proof fn lemma_health_update(lanes: Seq<Option<Enemy>>, i: int, e: Enemy)
    requires
        0 <= i < lanes.len(),
        lanes[i] is Some,
    ensures
        lanes_health(lanes.update(i, Some(e))) + lanes[i]->Some_0.health == lanes_health(lanes)
            + e.health,
    decreases i,
{
    let u = lanes.update(i, Some(e));
    if i > 0 {
        lemma_health_update(lanes.drop_first(), i - 1, e);
        assert(u.drop_first() =~= lanes.drop_first().update(i - 1, Some(e)));
    } else {
        assert(u.drop_first() =~= lanes.drop_first());
    }
}

/// Cleaning and filling keep the number of lanes.
pub proof fn lemma_lanes_kept(lanes: Seq<Option<Enemy>>, unused: Seq<Enemy>)
    ensures
        filled(cleaned(lanes), unused).0.len() == lanes.len(),
{
    lemma_cleaned(lanes);
    lemma_filled(cleaned(lanes), unused);
}

/// After any sequence of lane fillings and clean-ups, no more lanes are
/// occupied than the arena has, nor than were occupied before plus the
/// enemies then queued; occupied lanes and queue together never grow.
pub proof fn lemma_lane_count_bounded(b: Battle, ops: Seq<LaneOp>)
    requires
        b.wf(),
    ensures
        occupied(after_ops(b.lanes@, b.unused_enemies@, ops).0) <= BATTLE_ARENA_WIDTH,
        occupied(after_ops(b.lanes@, b.unused_enemies@, ops).0) <= occupied(b.lanes@)
            + b.unused_enemies.len(),
        occupied(after_ops(b.lanes@, b.unused_enemies@, ops).0) + after_ops(
            b.lanes@,
            b.unused_enemies@,
            ops,
        ).1.len() <= occupied(b.lanes@) + b.unused_enemies.len(),
{
    lemma_ops_counts(b.lanes@, b.unused_enemies@, ops);
}

proof fn lemma_ops_counts(lanes: Seq<Option<Enemy>>, unused: Seq<Enemy>, ops: Seq<LaneOp>)
    ensures
        after_ops(lanes, unused, ops).0.len() == lanes.len(),
        occupied(after_ops(lanes, unused, ops).0) + after_ops(lanes, unused, ops).1.len()
            <= occupied(lanes) + unused.len(),
        occupied(after_ops(lanes, unused, ops).0) <= lanes.len(),
    decreases ops.len(),
{
    let out = after_ops(lanes, unused, ops);
    lemma_occupied_bounded(out.0);
    if ops.len() > 0 {
        match ops[0] {
            LaneOp::PlaceEnemies => {
                lemma_filled(lanes, unused);
                let next = filled(lanes, unused);
                lemma_ops_counts(next.0, next.1, ops.drop_first());
            },
            LaneOp::CleanOutDead => {
                lemma_cleaned(lanes);
                lemma_ops_counts(cleaned(lanes), unused, ops.drop_first());
            },
        }
    }
}

/// An attack that deals at least one damage to a living enemy strictly lowers
/// the health still to be taken from the battle's enemies, so a battle ends
/// after finitely many such attacks.
pub proof fn lemma_attack_lowers_remaining_health(
    lanes: Seq<Option<Enemy>>,
    unused: Seq<Enemy>,
    lane: int,
    damage: u32,
)
    requires
        0 <= lane < lanes.len(),
        lanes[lane] is Some,
        lanes[lane]->Some_0.health > 0,
        damage >= 1,
    ensures
        lanes_health(after_attack(lanes, unused, lane, damage).0) + queue_health(
            after_attack(lanes, unused, lane, damage).1,
        ) < lanes_health(lanes) + queue_health(unused),
{
    let e = lanes[lane]->Some_0;
    let hit = lanes.update(lane, Some(struck(e, damage)));
    lemma_health_update(lanes, lane, struck(e, damage));
    lemma_cleaned(hit);
    lemma_filled(cleaned(hit), unused);
}

/// An attack never raises the health left to the enemies, whatever its
/// damage; it lowers it when the target is alive and the damage is not zero.
pub proof fn lemma_attack_health_bound(lanes: Seq<Option<Enemy>>, unused: Seq<Enemy>, lane: int, damage: u32)
    requires
        0 <= lane < lanes.len(),
        lanes[lane] is Some,
    ensures
        lanes_health(after_attack(lanes, unused, lane, damage).0) + queue_health(
            after_attack(lanes, unused, lane, damage).1,
        ) <= lanes_health(lanes) + queue_health(unused),
        lanes[lane]->Some_0.health > 0 && damage >= 1 ==> lanes_health(
            after_attack(lanes, unused, lane, damage).0,
        ) + queue_health(after_attack(lanes, unused, lane, damage).1) < lanes_health(lanes)
            + queue_health(unused),
{
    let e = lanes[lane]->Some_0;
    let hit = lanes.update(lane, Some(struck(e, damage)));
    lemma_health_update(lanes, lane, struck(e, damage));
    lemma_cleaned(hit);
    lemma_filled(cleaned(hit), unused);
}

#[derive(Debug)]
pub struct Battle {
    pub unused_enemies: Vec<Enemy>,
    pub lanes: Vec<Option<Enemy>>,
}

impl Clone for Battle {
    fn clone(&self) -> (r: Battle)
        ensures
            r.same_as(*self),
    {
        let mut unused_enemies: Vec<Enemy> = Vec::new();
        let mut i: usize = 0;
        while i < self.unused_enemies.len()
            invariant
                i <= self.unused_enemies.len(),
                unused_enemies.len() == i,
                forall|j: int| 0 <= j < i ==> (#[trigger] unused_enemies[j]).same_as(self.unused_enemies[j]),
            decreases self.unused_enemies.len() - i,
        {
            unused_enemies.push(self.unused_enemies[i].clone());
            i = i + 1;
        }
        let mut lanes: Vec<Option<Enemy>> = Vec::new();
        let mut k: usize = 0;
        while k < self.lanes.len()
            invariant
                k <= self.lanes.len(),
                lanes.len() == k,
                forall|j: int| 0 <= j < k ==> same_lane(#[trigger] lanes[j], self.lanes[j]),
            decreases self.lanes.len() - k,
        {
            let lane = match &self.lanes[k] {
                Some(e) => Some(e.clone()),
                None => None,
            };
            lanes.push(lane);
            k = k + 1;
        }
        Battle { unused_enemies, lanes }
    }
}

/// Two lanes hold the same enemy, or are both empty.
pub open spec fn same_lane(a: Option<Enemy>, b: Option<Enemy>) -> bool {
    match (a, b) {
        (Some(x), Some(y)) => x.same_as(y),
        (None, None) => true,
        _ => false,
    }
}

impl Battle {
    /// `self` and `o` hold the same enemies in the same places.
    pub open spec fn same_as(self, o: Battle) -> bool {
        &&& self.lanes.len() == o.lanes.len()
        &&& forall|i: int| 0 <= i < self.lanes.len() ==> same_lane(#[trigger] self.lanes[i], o.lanes[i])
        &&& self.unused_enemies.len() == o.unused_enemies.len()
        &&& forall|i: int|
            0 <= i < self.unused_enemies.len() ==> (#[trigger] self.unused_enemies[i]).same_as(
                o.unused_enemies[i],
            )
    }

    /// The arena has its full number of lanes.
    pub open spec fn wf(&self) -> bool {
        self.lanes.len() == BATTLE_ARENA_WIDTH
    }

    /// Every enemy of the battle, in a lane or queued, can roll each of its
    /// weapons.
    pub open spec fn armed(&self) -> bool {
        lanes_armed(self.lanes@) && queue_armed(self.unused_enemies@)
    }

    /// The health still to be taken from the enemies of the battle.
    pub open spec fn remaining_health(&self) -> nat {
        lanes_health(self.lanes@) + queue_health(self.unused_enemies@)
    }

    /// A battle against `enemies`, all still queued, with every lane empty.
    pub fn with(enemies: Vec<Enemy>) -> (r: Battle)
        ensures
            r.wf(),
            r.unused_enemies@ == enemies@,
            forall|i: int| 0 <= i < r.lanes.len() ==> #[trigger] r.lanes[i] is None,
            queue_armed(enemies@) ==> r.armed(),
    {
        let mut lanes: Vec<Option<Enemy>> = Vec::new();
        let mut i: u32 = 0;
        while i < BATTLE_ARENA_WIDTH
            invariant
                i <= BATTLE_ARENA_WIDTH,
                lanes.len() == i,
                forall|j: int| 0 <= j < lanes.len() ==> #[trigger] lanes[j] is None,
            decreases BATTLE_ARENA_WIDTH - i,
        {
            lanes.push(None);
            i = i + 1;
        }
        Battle { unused_enemies: enemies, lanes }
    }

    /// Whether every lane is empty and no enemy is left in the queue.
    pub fn is_over(&self) -> (r: bool)
        ensures
            r == (occupied(self.lanes@) == 0 && self.unused_enemies.len() == 0),
    {
        let mut i: usize = 0;
        while i < self.lanes.len()
            invariant
                i <= self.lanes.len(),
                forall|j: int| 0 <= j < i ==> #[trigger] self.lanes[j] is None,
            decreases self.lanes.len() - i,
        {
            if self.lanes[i].is_some() {
                proof {
                    lemma_occupied_positive(self.lanes@, i as int);
                }
                return false;
            }
            i = i + 1;
        }
        proof {
            lemma_occupied_zero(self.lanes@);
        }
        self.unused_enemies.len() == 0
    }

    /// Takes every enemy of zero health out of its lane.
    pub fn clean_out_dead(&mut self)
        ensures
            final(self).lanes@ == cleaned(old(self).lanes@),
            final(self).unused_enemies@ == old(self).unused_enemies@,
            old(self).armed() ==> final(self).armed(),
    {
        let mut i: usize = 0;
        while i < self.lanes.len()
            invariant
                i <= self.lanes.len() == old(self).lanes.len(),
                self.unused_enemies@ == old(self).unused_enemies@,
                forall|j: int|
                    0 <= j < self.lanes.len() ==> #[trigger] self.lanes@[j] == (if j < i {
                        cleaned(old(self).lanes@)[j]
                    } else {
                        old(self).lanes@[j]
                    }),
            decreases self.lanes.len() - i,
        {
            let dead = match &self.lanes[i] {
                Some(e) => e.health == 0,
                None => false,
            };
            if dead {
                self.lanes.set(i, None);
            }
            i = i + 1;
        }
        assert(self.lanes@ =~= cleaned(old(self).lanes@));
        proof {
            if old(self).armed() {
                lemma_filled_armed(old(self).lanes@, old(self).unused_enemies@);
            }
        }
    }

    /// Whether some lane is empty.
    pub fn has_empty_lane(&self) -> (r: bool)
        ensures
            r == has_empty(self.lanes@),
    {
        let mut i: usize = 0;
        while i < self.lanes.len()
            invariant
                i <= self.lanes.len(),
                forall|j: int| 0 <= j < i ==> #[trigger] self.lanes[j] is Some,
            decreases self.lanes.len() - i,
        {
            if self.lanes[i].is_none() {
                return true;
            }
            i = i + 1;
        }
        false
    }

    /// Puts `enemy` into the first empty lane; it is dropped when none is.
    pub fn place_enemy(&mut self, enemy: Enemy)
        ensures
            final(self).lanes@ == placed(old(self).lanes@, enemy),
            final(self).unused_enemies@ == old(self).unused_enemies@,
    {
        let mut i: usize = 0;
        while i < self.lanes.len()
            invariant
                i <= self.lanes.len(),
                self.lanes@ == old(self).lanes@,
                self.unused_enemies@ == old(self).unused_enemies@,
                forall|j: int| 0 <= j < i ==> #[trigger] self.lanes[j] is Some,
            decreases self.lanes.len() - i,
        {
            if self.lanes[i].is_none() {
                proof {
                    lemma_placed_at(old(self).lanes@, enemy, i as int);
                }
                self.lanes.set(i, Some(enemy));
                return;
            }
            i = i + 1;
        }
        proof {
            lemma_placed_full(old(self).lanes@, enemy);
        }
    }

    /// Fills empty lanes from the back of the queue, for as long as a lane is
    /// empty and the queue is not.
    pub fn place_enemies(&mut self)
        ensures
            (final(self).lanes@, final(self).unused_enemies@) == filled(
                old(self).lanes@,
                old(self).unused_enemies@,
            ),
            old(self).armed() ==> final(self).armed(),
    {
        proof {
            if old(self).armed() {
                lemma_filled_armed(old(self).lanes@, old(self).unused_enemies@);
            }
        }
        while self.has_empty_lane() && self.unused_enemies.len() > 0
            invariant
                filled(self.lanes@, self.unused_enemies@) == filled(
                    old(self).lanes@,
                    old(self).unused_enemies@,
                ),
            decreases self.unused_enemies.len(),
        {
            let ghost before = (self.lanes@, self.unused_enemies@);
            let enemy = self.unused_enemies.pop().unwrap();
            self.place_enemy(enemy);
            assert(self.unused_enemies@ =~= before.1.drop_last());
        }
    }

    /// The lanes whose enemy is in range of a weapon of range `range` used
    /// from position `player_position`, in lane order.
    pub fn target_lanes(&self, player_position: u32, range: u32) -> (r: Vec<usize>)
        ensures
            r@.map_values(|l: usize| l as int) == target_lanes(self.lanes@, player_position, range),
    {
        let mut r: Vec<usize> = Vec::new();
        let mut i: usize = 0;
        while i < self.lanes.len()
            invariant
                i <= self.lanes.len(),
                r@.map_values(|l: usize| l as int) == target_lanes_upto(
                    self.lanes@,
                    player_position,
                    range,
                    i as nat,
                ),
            decreases self.lanes.len() - i,
        {
            let hit = match &self.lanes[i] {
                Some(e) => {
                    let d: i128 = i as i128 - player_position as i128 + e.position_y as i128;
                    let dist: i128 = if d < 0 { 0 - d } else { d };
                    dist <= range as i128
                },
                None => false,
            };
            let ghost before = r@;
            if hit {
                r.push(i);
                assert(r@.map_values(|l: usize| l as int) =~= before.map_values(|l: usize| l as int).push(i as int));
            }
            i = i + 1;
        }
        r
    }

    /// The enemies in range of a weapon of range `range` used from position
    /// `player_position`, in lane order.
    pub fn get_valid_targets(&self, player_position: u32, range: u32) -> (r: Vec<Enemy>)
        ensures
            r.len() == target_lanes(self.lanes@, player_position, range).len(),
            forall|k: int| 0 <= k < r.len() ==> #[trigger] r[k].same_as(
                self.lanes[target_lanes(self.lanes@, player_position, range)[k]]->Some_0,
            ),
    {
        let lanes = self.target_lanes(player_position, range);
        proof {
            lemma_target_lanes_valid(self.lanes@, player_position, range, self.lanes.len() as nat);
        }
        let ghost tl = target_lanes(self.lanes@, player_position, range);
        let mut r: Vec<Enemy> = Vec::new();
        let mut k: usize = 0;
        while k < lanes.len()
            invariant
                k <= lanes.len() == tl.len(),
                lanes@.map_values(|l: usize| l as int) == tl,
                forall|j: int| 0 <= j < tl.len() ==> {
                    let l = #[trigger] tl[j];
                    0 <= l < self.lanes.len() && self.lanes[l] is Some
                },
                r.len() == k,
                forall|j: int| 0 <= j < k ==> #[trigger] r[j].same_as(self.lanes[tl[j]]->Some_0),
            decreases lanes.len() - k,
        {
            assert(tl[k as int] == lanes[k as int] as int);
            let e = match &self.lanes[lanes[k]] {
                Some(e) => e.clone(),
                None => Enemy::default(),
            };
            r.push(e);
            k = k + 1;
        }
        r
    }

    /// The lane of the `index`-th enemy in range, in lane order, of a weapon of
    /// range `range` used from position `player_position`.
    pub fn valid_target_lane(&self, player_position: u32, range: u32, index: usize) -> (r: Option<usize>)
        ensures
            r == (if index < target_lanes(self.lanes@, player_position, range).len() {
                Some(target_lanes(self.lanes@, player_position, range)[index as int] as usize)
            } else {
                None
            }),
            r matches Some(l) ==> l < self.lanes.len() && self.lanes[l as int] is Some && l as int
                == target_lanes(self.lanes@, player_position, range)[index as int],
    {
        let lanes = self.target_lanes(player_position, range);
        proof {
            lemma_target_lanes_valid(self.lanes@, player_position, range, self.lanes.len() as nat);
        }
        if index < lanes.len() {
            assert(target_lanes(self.lanes@, player_position, range)[index as int] == lanes[index as int] as int);
            Some(lanes[index])
        } else {
            None
        }
    }

    /// Deals `damage` to the enemy in lane `lane`, its health stopping at
    /// zero. Returns whether that took its last health.
    pub fn strike(&mut self, lane: usize, damage: u32) -> (killed: bool)
        requires
            lane < old(self).lanes.len(),
            old(self).lanes[lane as int] is Some,
        ensures
            killed == (damage >= old(self).lanes[lane as int]->Some_0.health),
            final(self).lanes@ == old(self).lanes@.update(
                lane as int,
                Some(struck(old(self).lanes[lane as int]->Some_0, damage)),
            ),
            final(self).unused_enemies@ == old(self).unused_enemies@,
            old(self).armed() ==> final(self).armed(),
    {
        let mut killed = false;
        match &mut self.lanes[lane] {
            Some(e) => {
                if damage < e.health {
                    e.health = e.health - damage;
                } else {
                    e.health = 0;
                    killed = true;
                }
            },
            None => {},
        }
        assert(self.lanes@ =~= old(self).lanes@.update(
            lane as int,
            Some(struck(old(self).lanes[lane as int]->Some_0, damage)),
        ));
        assert(old(self).armed() ==> lanes_armed(self.lanes@)) by {
            if old(self).armed() {
                assert forall|i: int| 0 <= i < self.lanes.len() implies (
                #[trigger] self.lanes@[i] matches Some(x) ==> armed(x)) by {
                    assert(old(self).lanes@[i] matches Some(x) ==> armed(x));
                }
            }
        }
        killed
    }
}

proof fn lemma_occupied_positive(lanes: Seq<Option<Enemy>>, i: int)
    requires
        0 <= i < lanes.len(),
        lanes[i] is Some,
    ensures
        occupied(lanes) > 0,
    decreases i,
{
    if i > 0 {
        lemma_occupied_positive(lanes.drop_first(), i - 1);
    }
}

proof fn lemma_occupied_zero(lanes: Seq<Option<Enemy>>)
    requires
        forall|j: int| 0 <= j < lanes.len() ==> #[trigger] lanes[j] is None,
    ensures
        occupied(lanes) == 0,
    decreases lanes.len(),
{
    if lanes.len() > 0 {
        let rest = lanes.drop_first();
        assert forall|j: int| 0 <= j < rest.len() implies #[trigger] rest[j] is None by {
            assert(rest[j] == lanes[j + 1]);
        }
        lemma_occupied_zero(rest);
    }
}

proof fn lemma_placed_at(lanes: Seq<Option<Enemy>>, e: Enemy, i: int)
    requires
        0 <= i < lanes.len(),
        lanes[i] is None,
        forall|j: int| 0 <= j < i ==> #[trigger] lanes[j] is Some,
    ensures
        placed(lanes, e) == lanes.update(i, Some(e)),
    decreases i,
{
    if i > 0 {
        let rest = lanes.drop_first();
        assert forall|j: int| 0 <= j < i - 1 implies #[trigger] rest[j] is Some by {
            assert(rest[j] == lanes[j + 1]);
        }
        lemma_placed_at(rest, e, i - 1);
        assert(lanes[0] is Some);
        assert(seq![lanes[0]] + rest.update(i - 1, Some(e)) =~= lanes.update(i, Some(e)));
    }
}

proof fn lemma_placed_full(lanes: Seq<Option<Enemy>>, e: Enemy)
    requires
        forall|j: int| 0 <= j < lanes.len() ==> #[trigger] lanes[j] is Some,
    ensures
        placed(lanes, e) == lanes,
    decreases lanes.len(),
{
    if lanes.len() > 0 {
        let rest = lanes.drop_first();
        assert forall|j: int| 0 <= j < rest.len() implies #[trigger] rest[j] is Some by {
            assert(rest[j] == lanes[j + 1]);
        }
        lemma_placed_full(rest, e);
        assert(lanes[0] is Some);
        assert(seq![lanes[0]] + rest =~= lanes);
    }
}

} // verus!
