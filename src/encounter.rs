//! The encounter interpreter: walks a script of narrative phases held in an
//! arena, with a stack of frames for the loops it is inside.

use vstd::prelude::*;

use crate::battle::Battle;
use crate::player::PlayerResources;

verus! {

/// A question with labelled options; each option leads to a phase of the
/// script, given by its index.
#[derive(Debug)]
pub struct EncounterDecision {
    pub prompt: &'static str,
    pub options: Vec<(&'static str, usize)>,
}

/// One node of an encounter's script. Phases that hold other phases refer to
/// them by their index in the script.
#[derive(Debug)]
pub enum EncounterPhase {
    /// A battle to fight.
    Battle(Battle),
    /// A line of narration.
    Line(&'static str),
    /// A question whose answer picks the next phase.
    Decision(EncounterDecision),
    /// A line, and resources gained.
    Gain(&'static str, PlayerResources),
    /// A line, and resources lost.
    Lose(&'static str, PlayerResources),
    /// A line for success and one for failure, a cost and a reward.
    Trade(&'static str, &'static str, PlayerResources, PlayerResources),
    /// Phases repeated until one of them breaks out.
    Loop(Vec<usize>),
    /// Leaves the innermost loop.
    Break,
}

/// What the interpreter asks of its host after processing a phase.
#[derive(Debug)]
pub enum EncounterEvent {
    /// Show a line.
    Line(&'static str),
    /// Show a question with its option labels and wait for a pick.
    Prompt { prompt: &'static str, options: Vec<&'static str> },
    /// Fight this battle; the encounter goes on once it is won.
    StartBattle(Battle),
    /// Nothing to show; go on.
    Silent,
    /// The encounter is over.
    Finished,
}

/// A phase that, once processed, moves the cursor on to the next one.
pub open spec fn advances(p: EncounterPhase) -> bool {
    match p {
        EncounterPhase::Battle(_) | EncounterPhase::Line(_) | EncounterPhase::Gain(..)
        | EncounterPhase::Lose(..) | EncounterPhase::Trade(..) => true,
        _ => false,
    }
}

/// A phase that the interpreter waits on.
pub open spec fn blocks(p: EncounterPhase) -> bool {
    p is Decision || p is Battle
}

/// The position of the interpreter: the frames it is inside, innermost last,
/// and the cursor within each.
pub struct Cursor {
    pub frames: Seq<Seq<usize>>,
    pub pointers: Seq<usize>,
}

/// The phase under the cursor of the innermost frame, if any.
pub open spec fn active(c: Cursor) -> Option<usize> {
    if c.frames.len() > 0 && c.pointers.len() == c.frames.len() && c.pointers.last()
        < c.frames.last().len() {
        Some(c.frames.last()[c.pointers.last() as int])
    } else {
        None
    }
}

/// The cursor moved past the active phase; at the end of a loop's frame it
/// wraps to the loop's first phase.
pub open spec fn forward(c: Cursor) -> Cursor {
    let top = c.pointers.len() - 1;
    let moved = c.pointers.update(top, (c.pointers[top] + 1) as usize);
    let next = Cursor { frames: c.frames, pointers: moved };
    if active(next) is None && c.frames.len() > 1 {
        Cursor { frames: c.frames, pointers: c.pointers.update(top, 0) }
    } else {
        next
    }
}

/// The innermost frame left, and the cursor of the frame around it moved past
/// the phase that started the loop. Leaving the outermost frame ends the
/// encounter.
pub open spec fn broken(c: Cursor) -> Cursor {
    let popped = Cursor { frames: c.frames.drop_last(), pointers: c.pointers.drop_last() };
    if popped.frames.len() > 0 {
        forward(popped)
    } else {
        popped
    }
}

/// A new innermost frame for a loop over `phases`, its cursor at the start.
pub open spec fn entered(c: Cursor, phases: Seq<usize>) -> Cursor {
    Cursor { frames: c.frames.push(phases), pointers: c.pointers.push(0) }
}

/// The cursor after processing phase `p`.
pub open spec fn cursor_after(c: Cursor, p: EncounterPhase) -> Cursor {
    match p {
        EncounterPhase::Loop(phases) => entered(c, phases@),
        EncounterPhase::Break => broken(c),
        EncounterPhase::Decision(_) => c,
        _ => forward(c),
    }
}

/// The cursor after one step: the active phase processed, if there is one.
pub open spec fn stepped(script: Seq<EncounterPhase>, c: Cursor) -> Cursor {
    match active(c) {
        Some(n) => cursor_after(c, script[n as int]),
        None => c,
    }
}

/// Resources gained: added when the sum fits, otherwise left as they were.
pub open spec fn gained(before: PlayerResources, reward: PlayerResources) -> PlayerResources {
    if before.can_add(reward) {
        before.plus(reward)
    } else {
        before
    }
}

/// Every index of the frame is a phase of the script.
pub open spec fn frame_ok(frame: Seq<usize>, n: nat) -> bool {
    forall|j: int| 0 <= j < frame.len() ==> #[trigger] frame[j] < n
}

/// Phase `p` of a script of `n` phases refers only to phases of the script,
/// and its costs and battle are well formed.
pub open spec fn phase_ok(p: EncounterPhase, n: nat) -> bool {
    match p {
        EncounterPhase::Battle(b) => b.wf() && b.armed(),
        EncounterPhase::Decision(d) => forall|j: int|
            0 <= j < d.options.len() ==> (#[trigger] d.options[j]).1 < n,
        EncounterPhase::Lose(_, r) => r.money.rollable() && r.batteries.rollable(),
        EncounterPhase::Trade(_, _, c, _) => c.money.rollable() && c.batteries.rollable(),
        EncounterPhase::Loop(phases) => frame_ok(phases@, n),
        _ => true,
    }
}

/// Stepping an encounter whose only outermost phase is a loop over
/// `[a, b, Break]`, where `a` and `b` are phases that move on: the loop is
/// entered, `a` comes up, then `b`, then the break; after it the loop frame is
/// gone and the outer cursor has moved past the loop, once, and the encounter
/// is over and stays so.
pub proof fn lemma_loop_runs_once(e: Encounter, l: usize, a: usize, b: usize, k: usize)
    requires
        e.cursor() == (Cursor { frames: seq![seq![l]], pointers: seq![0usize] }),
        l < e.script.len(),
        a < e.script.len(),
        b < e.script.len(),
        k < e.script.len(),
        e.script[l as int] matches EncounterPhase::Loop(f) && f@ == seq![a, b, k],
        advances(e.script[a as int]),
        advances(e.script[b as int]),
        e.script[k as int] is Break,
    ensures
        ({
            let s = e.script@;
            let c1 = stepped(s, e.cursor());
            let c2 = stepped(s, c1);
            let c3 = stepped(s, c2);
            let c4 = stepped(s, c3);
            &&& active(e.cursor()) == Some(l)
            &&& active(c1) == Some(a)
            &&& active(c2) == Some(b)
            &&& active(c3) == Some(k)
            &&& c4 == (Cursor { frames: seq![seq![l]], pointers: seq![1usize] })
            &&& active(c4) is None
            &&& stepped(s, c4) == c4
        }),
{
    let s = e.script@;
    let body = seq![a, b, k];
    let c0 = e.cursor();
    assert(active(c0) == Some(l));
    let c1 = stepped(s, c0);
    assert(c1 == entered(c0, body));
    assert(c1.frames =~= seq![seq![l], body]);
    assert(c1.pointers =~= seq![0usize, 0usize]);
    assert(active(c1) == Some(a));
    let c2 = stepped(s, c1);
    assert(c2 == forward(c1));
    assert(c2.pointers =~= seq![0usize, 1usize]);
    assert(active(c2) == Some(b));
    let c3 = stepped(s, c2);
    assert(c3 == forward(c2));
    assert(c3.pointers =~= seq![0usize, 2usize]);
    assert(active(c3) == Some(k));
    let c4 = stepped(s, c3);
    assert(c4 == broken(c3));
    let popped = Cursor { frames: c3.frames.drop_last(), pointers: c3.pointers.drop_last() };
    assert(popped.frames =~= seq![seq![l]]);
    assert(popped.pointers =~= seq![0usize]);
    assert(forward(popped).pointers =~= seq![1usize]);
    assert(c4.frames =~= seq![seq![l]]);
    assert(c4.pointers =~= seq![1usize]);
}

/// What processing phase `p` does to the resources (`before` to `after`) and
/// which event it produces.
pub open spec fn processed(p: EncounterPhase, before: PlayerResources, after: PlayerResources, ev: EncounterEvent) -> bool {
    match p {
        EncounterPhase::Line(l) => after == before && ev == EncounterEvent::Line(l),
        EncounterPhase::Gain(l, r) => after == gained(before, r) && ev == EncounterEvent::Line(l),
        EncounterPhase::Lose(l, r) => PlayerResources::removal(before, r, after, before.affords(r))
            && ev == EncounterEvent::Line(l),
        EncounterPhase::Trade(success, failure, cost, reward) => {
            &&& before.affords(cost) ==> ev == EncounterEvent::Line(success) && exists|mid: PlayerResources|
                PlayerResources::removal(before, cost, mid, true) && after == #[trigger] gained(mid, reward)
            &&& !before.affords(cost) ==> ev == EncounterEvent::Line(failure) && after == before
        },
        EncounterPhase::Decision(d) => after == before && (ev matches EncounterEvent::Prompt {
            prompt,
            options,
        } && prompt == d.prompt && options@ == d.options@.map_values(
            |o: (&'static str, usize)| o.0,
        )),
        EncounterPhase::Battle(b) => after == before && (ev matches EncounterEvent::StartBattle(c)
            && c.same_as(b)),
        EncounterPhase::Loop(_) | EncounterPhase::Break => after == before && ev is Silent,
    }
}

/// A copy of a frame.
fn copy_frame(f: &Vec<usize>) -> (r: Vec<usize>)
    ensures
        r@ == f@,
{
    let mut r: Vec<usize> = Vec::new();
    let mut i: usize = 0;
    while i < f.len()
        invariant
            i <= f.len(),
            r@ == f@.take(i as int),
        decreases f.len() - i,
    {
        r.push(f[i]);
        i = i + 1;
        assert(r@ =~= f@.take(i as int));
    }
    assert(f@.take(i as int) =~= f@);
    r
}

/// Resources gained: added when the sum fits, otherwise left as they were.
fn gain(resources: &mut PlayerResources, reward: PlayerResources)
    ensures
        *final(resources) == gained(*old(resources), reward),
{
    if resources.can_take(&reward) {
        resources.add(reward);
    }
}

/// The encounter the game is in.
pub struct OngoingEncounter(pub Encounter);

/// A script under construction: phases are added one at a time, each
/// referring only to phases added before it.
pub struct Script {
    pub phases: Vec<EncounterPhase>,
}

impl Script {
    /// Every phase refers only to phases of the script.
    pub open spec fn ok(&self) -> bool {
        forall|i: int| 0 <= i < self.phases.len() ==> phase_ok(#[trigger] self.phases[i], self.phases.len() as nat)
    }

    pub fn new() -> (r: Script)
        ensures
            r.ok(),
            r.phases.len() == 0,
    {
        Script { phases: Vec::new() }
    }

    /// Adds phase `p` and returns its index.
    pub fn add(&mut self, p: EncounterPhase) -> (r: usize)
        requires
            old(self).ok(),
            phase_ok(p, old(self).phases.len() as nat),
            old(self).phases.len() < usize::MAX,
        ensures
            final(self).ok(),
            r == old(self).phases.len(),
            final(self).phases@ == old(self).phases@.push(p),
    {
        let r = self.phases.len();
        self.phases.push(p);
        proof {
            let n = self.phases.len() as nat;
            assert forall|i: int| 0 <= i < self.phases.len() implies phase_ok(#[trigger] self.phases[i], n) by {
                if i < r {
                    assert(self.phases[i] == old(self).phases[i]);
                    assert(phase_ok(old(self).phases[i], r as nat));
                }
            }
        }
        r
    }

    /// An encounter over this script whose outermost phases are `root`.
    pub fn finish(self, root: Vec<usize>) -> (r: Encounter)
        requires
            self.ok(),
            frame_ok(root@, self.phases.len() as nat),
        ensures
            r.wf(),
            r.script@ == self.phases@,
            r.cursor() == (Cursor { frames: seq![root@], pointers: seq![0usize] }),
    {
        Encounter::from_phases(self.phases, root)
    }
}

pub struct Encounter {
    pub script: Vec<EncounterPhase>,
    pub stack: Vec<Vec<usize>>,
    pub stack_pointers: Vec<usize>,
}

impl Encounter {
    /// The interpreter's position.
    pub open spec fn cursor(&self) -> Cursor {
        Cursor { frames: self.stack@.map_values(|f: Vec<usize>| f@), pointers: self.stack_pointers@ }
    }

    /// Every phase refers to phases of the script; every frame holds phases
    /// of the script; each outer frame's cursor rests on the phase that
    /// started the frame inside it, and the innermost one is at most at its
    /// end.
    pub open spec fn wf(&self) -> bool {
        let n = self.script.len() as nat;
        &&& forall|i: int| 0 <= i < self.script.len() ==> phase_ok(#[trigger] self.script[i], n)
        &&& self.stack.len() == self.stack_pointers.len()
        &&& forall|i: int| 0 <= i < self.stack.len() ==> frame_ok(#[trigger] self.stack[i]@, n)
        &&& forall|i: int|
            0 <= i < self.stack.len() - 1 ==> #[trigger] self.stack_pointers[i] < self.stack[i].len()
        &&& self.stack.len() > 0 ==> self.stack_pointers@.last() <= self.stack@.last().len()
    }

    /// A script whose outermost phases are `root`, with the cursor on the
    /// first of them.
    pub fn from_phases(script: Vec<EncounterPhase>, root: Vec<usize>) -> (r: Encounter)
        ensures
            r.script@ == script@,
            r.cursor() == (Cursor { frames: seq![root@], pointers: seq![0usize] }),
            (forall|i: int| 0 <= i < script.len() ==> phase_ok(#[trigger] script[i], script.len() as nat))
                && frame_ok(root@, script.len() as nat) ==> r.wf(),
    {
        let stack = vec![root];
        let stack_pointers = vec![0];
        let r = Encounter { script, stack, stack_pointers };
        assert(r.cursor().frames =~= seq![r.stack[0]@]);
        assert(r.cursor().pointers =~= seq![0usize]);
        r
    }

    /// The index of the phase under the cursor, if any.
    pub fn active_index(&self) -> (r: Option<usize>)
        requires
            self.wf(),
        ensures
            r == active(self.cursor()),
    {
        let n = self.stack.len();
        if n == 0 {
            return None;
        }
        let ptr = self.stack_pointers[n - 1];
        if ptr < self.stack[n - 1].len() {
            Some(self.stack[n - 1][ptr])
        } else {
            None
        }
    }

    /// Whether the encounter waits for the host: a decision or a battle is
    /// under the cursor.
    pub fn waiting_for_input(&self) -> (r: bool)
        requires
            self.wf(),
        ensures
            r == (active(self.cursor()) matches Some(i) && blocks(self.script[i as int])),
    {
        match self.active_index() {
            Some(i) => match &self.script[i] {
                EncounterPhase::Decision(_) | EncounterPhase::Battle(_) => true,
                _ => false,
            },
            None => false,
        }
    }

    /// Moves the cursor past the active phase; see `forward`.
    pub fn move_forward(&mut self)
        requires
            old(self).wf(),
            old(self).stack.len() > 0,
            old(self).stack_pointers@.last() < old(self).stack@.last().len(),
        ensures
            final(self).wf(),
            final(self).script@ == old(self).script@,
            final(self).cursor() == forward(old(self).cursor()),
    {
        let top = self.stack_pointers.len() - 1;
        let p = self.stack_pointers[top] + 1;
        self.stack_pointers.set(top, p);
        let ghost moved = self.cursor();
        assert(moved.frames == old(self).cursor().frames);
        assert(moved.pointers =~= old(self).cursor().pointers.update(top as int, p));
        if self.active_index().is_none() && self.in_a_loop() {
            self.stack_pointers.set(top, 0);
            assert(self.cursor().pointers =~= old(self).cursor().pointers.update(top as int, 0));
        }
    }

    /// Leaves the innermost frame; see `broken`.
    pub fn break_loop(&mut self)
        requires
            old(self).wf(),
            old(self).stack.len() > 0,
        ensures
            final(self).wf(),
            final(self).script@ == old(self).script@,
            final(self).cursor() == broken(old(self).cursor()),
    {
        self.stack.pop();
        self.stack_pointers.pop();
        assert(self.cursor().frames =~= old(self).cursor().frames.drop_last());
        assert(self.cursor().pointers =~= old(self).cursor().pointers.drop_last());
        if self.stack.len() > 0 {
            self.move_forward();
        }
    }

    /// Enters a loop over `frame`; see `entered`.
    pub fn start_loop(&mut self, frame: Vec<usize>)
        requires
            old(self).wf(),
            old(self).stack.len() > 0,
            old(self).stack_pointers@.last() < old(self).stack@.last().len(),
            frame_ok(frame@, old(self).script.len() as nat),
        ensures
            final(self).wf(),
            final(self).script@ == old(self).script@,
            final(self).cursor() == entered(old(self).cursor(), frame@),
    {
        let ghost f = frame@;
        self.stack.push(frame);
        self.stack_pointers.push(0);
        assert(self.cursor().frames =~= old(self).cursor().frames.push(f));
    }

    /// Processes phase `node`: a line is shown, resources gained, lost or
    /// traded, a question asked, a battle started, a loop entered or left.
    /// Every phase but a loop, a break and a question then moves the cursor
    /// on.
    pub fn process(&mut self, node: usize, resources: &mut PlayerResources) -> (ev: EncounterEvent)
        requires
            old(self).wf(),
            node < old(self).script.len(),
            old(self).stack.len() > 0,
            old(self).stack_pointers@.last() < old(self).stack@.last().len(),
        ensures
            final(self).wf(),
            final(self).script@ == old(self).script@,
            final(self).cursor() == cursor_after(old(self).cursor(), old(self).script[node as int]),
            processed(old(self).script[node as int], *old(resources), *final(resources), ev),
    {
        let ghost phase = self.script[node as int];
        assert(phase_ok(phase, self.script.len() as nat));
        match &self.script[node] {
            EncounterPhase::Line(l) => {
                let line = *l;
                self.move_forward();
                EncounterEvent::Line(line)
            },
            EncounterPhase::Gain(l, r) => {
                let line = *l;
                let reward = *r;
                gain(resources, reward);
                self.move_forward();
                EncounterEvent::Line(line)
            },
            EncounterPhase::Lose(l, r) => {
                let line = *l;
                let cost = *r;
                resources.remove(cost);
                self.move_forward();
                EncounterEvent::Line(line)
            },
            EncounterPhase::Trade(success, failure, c, w) => {
                let (success, failure, cost, reward) = (*success, *failure, *c, *w);
                let ev = if resources.remove(cost) {
                    let ghost mid = *resources;
                    gain(resources, reward);
                    assert(PlayerResources::removal(*old(resources), cost, mid, true) && *resources == gained(mid, reward));
                    EncounterEvent::Line(success)
                } else {
                    EncounterEvent::Line(failure)
                };
                self.move_forward();
                ev
            },
            EncounterPhase::Decision(d) => {
                let mut options: Vec<&'static str> = Vec::new();
                let mut i: usize = 0;
                while i < d.options.len()
                    invariant
                        i <= d.options.len(),
                        options@ == d.options@.take(i as int).map_values(
                            |o: (&'static str, usize)| o.0,
                        ),
                    decreases d.options.len() - i,
                {
                    options.push(d.options[i].0);
                    i = i + 1;
                    assert(options@ =~= d.options@.take(i as int).map_values(
                        |o: (&'static str, usize)| o.0,
                    ));
                }
                assert(d.options@.take(i as int) =~= d.options@);
                EncounterEvent::Prompt { prompt: d.prompt, options }
            },
            EncounterPhase::Battle(b) => {
                let battle = b.clone();
                self.move_forward();
                EncounterEvent::StartBattle(battle)
            },
            EncounterPhase::Loop(f) => {
                let frame = copy_frame(f);
                self.start_loop(frame);
                EncounterEvent::Silent
            },
            EncounterPhase::Break => {
                self.break_loop();
                EncounterEvent::Silent
            },
        }
    }

    /// Processes the phase under the cursor; `Finished` when there is none.
    pub fn step(&mut self, resources: &mut PlayerResources) -> (ev: EncounterEvent)
        requires
            old(self).wf(),
        ensures
            final(self).wf(),
            final(self).script@ == old(self).script@,
            final(self).cursor() == stepped(old(self).script@, old(self).cursor()),
            match active(old(self).cursor()) {
                Some(n) => processed(old(self).script[n as int], *old(resources), *final(resources), ev),
                None => ev is Finished && *final(resources) == *old(resources),
            },
    {
        match self.active_index() {
            Some(n) => self.process(n, resources),
            None => EncounterEvent::Finished,
        }
    }

    /// The host's answer to the question under the cursor: option `index`,
    /// whose phase is processed in the question's place.
    pub fn decide(&mut self, index: usize, resources: &mut PlayerResources) -> (ev: EncounterEvent)
        requires
            old(self).wf(),
            active(old(self).cursor()) matches Some(a) && old(self).script[a as int] matches EncounterPhase::Decision(d)
                && index < d.options.len(),
        ensures
            final(self).wf(),
            final(self).script@ == old(self).script@,
            active(old(self).cursor()) matches Some(a) && old(self).script[a as int] matches EncounterPhase::Decision(d)
                && final(self).cursor() == cursor_after(old(self).cursor(), old(self).script[d.options[index as int].1 as int])
                && processed(old(self).script[d.options[index as int].1 as int], *old(resources), *final(resources), ev),
    {
        let a = match self.active_index() {
            Some(a) => a,
            None => 0,
        };
        let node = match &self.script[a] {
            EncounterPhase::Decision(d) => d.options[index].1,
            _ => 0,
        };
        self.process(node, resources)
    }

    /// Whether the cursor is inside a loop.
    pub fn in_a_loop(&self) -> (r: bool)
        ensures
            r == (self.stack.len() > 1),
    {
        self.stack.len() > 1
    }
}

} // verus!
