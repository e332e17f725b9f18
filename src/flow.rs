//! The game's states, layered as a stack: travelling, inside an encounter,
//! inside a battle.

use vstd::prelude::*;

verus! {

#[derive(Debug, Clone, Copy, PartialEq, Eq, Structural, Hash)]
pub enum AppState {
    MainMenu,
    GameOver,
    Travel,
    Encounter,
    Battle,
}

/// A stack of states; the last one is current.
#[derive(Debug)]
pub struct GameFlow {
    pub stack: Vec<AppState>,
}

impl GameFlow {
    /// A game at its main menu.
    pub fn new() -> (r: GameFlow)
        ensures
            r.stack@ == seq![AppState::MainMenu],
    {
        let stack = vec![AppState::MainMenu];
        assert(stack@ =~= seq![AppState::MainMenu]);
        GameFlow { stack }
    }

    /// The current state.
    pub fn current(&self) -> (r: Option<AppState>)
        ensures
            r == (if self.stack.len() > 0 { Some(self.stack@.last()) } else { None }),
    {
        if self.stack.len() > 0 {
            Some(self.stack[self.stack.len() - 1])
        } else {
            None
        }
    }

    /// Replaces the current state, or starts with `s` when there is none.
    pub fn set(&mut self, s: AppState)
        ensures
            final(self).stack@ == (if old(self).stack.len() > 0 {
                old(self).stack@.drop_last().push(s)
            } else {
                seq![s]
            }),
    {
        if self.stack.len() > 0 {
            self.stack.pop();
        }
        self.stack.push(s);
        assert(self.stack@ =~= (if old(self).stack.len() > 0 {
            old(self).stack@.drop_last().push(s)
        } else {
            seq![s]
        }));
    }

    /// Enters `s` on top of the current state.
    pub fn push(&mut self, s: AppState)
        ensures
            final(self).stack@ == old(self).stack@.push(s),
    {
        self.stack.push(s);
    }

    /// Leaves the current state for the one beneath it. The bottom state is
    /// never left; returns whether a state was left.
    pub fn pop(&mut self) -> (r: bool)
        ensures
            r == (old(self).stack.len() > 1),
            final(self).stack@ == (if r { old(self).stack@.drop_last() } else { old(self).stack@ }),
    {
        if self.stack.len() > 1 {
            self.stack.pop();
            true
        } else {
            false
        }
    }
}

} // verus!
