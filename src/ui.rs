//! The presentation port: lines and prompts queued for the host to show, and
//! the option the player is about to pick.

use vstd::prelude::*;

verus! {

/// How many chat entries the host keeps on screen.
pub const MAX_SPAWNED_EVENTS: usize = 6;

/// Something queued for the host to show.
#[derive(Debug)]
pub enum ChatEvent {
    Line(String),
    HighlightedLine(String),
    Prompt { prompt: String, options: Vec<String> },
}

#[derive(Debug)]
pub struct UIHelper {
    pub to_spawn: Vec<ChatEvent>,
    pub selected_option: Option<usize>,
    pub available_options: Option<usize>,
}

/// How many of `spawned` entries must go so that no more than
/// `MAX_SPAWNED_EVENTS` stay on screen.
pub fn excess_events(spawned: usize) -> (r: usize)
    ensures
        r == (if spawned > MAX_SPAWNED_EVENTS { spawned - MAX_SPAWNED_EVENTS } else { 0 }),
{
    if spawned > MAX_SPAWNED_EVENTS {
        spawned - MAX_SPAWNED_EVENTS
    } else {
        0
    }
}

impl UIHelper {
    /// A selected option lies among those offered.
    pub open spec fn wf(&self) -> bool {
        self.selected_option matches Some(s) ==> (self.available_options matches Some(n) && s < n)
    }

    /// A helper whose queue starts with ten empty lines, so that the first
    /// real entries show at the bottom of the chat.
    pub fn new() -> (r: UIHelper)
        ensures
            r.wf(),
            r.to_spawn.len() == 10,
            r.selected_option is None,
            r.available_options is None,
    {
        let mut item = UIHelper { to_spawn: Vec::new(), selected_option: None, available_options: None };
        let mut i: usize = 0;
        while i < 10
            invariant
                i <= 10,
                item.to_spawn.len() == i,
                item.selected_option is None,
                item.available_options is None,
            decreases 10 - i,
        {
            item.show_line(String::new());
            i = i + 1;
        }
        item
    }

    /// Queues a line.
    pub fn show_line(&mut self, line: String)
        ensures
            final(self).to_spawn@ == old(self).to_spawn@.push(ChatEvent::Line(line)),
            final(self).selected_option == old(self).selected_option,
            final(self).available_options == old(self).available_options,
    {
        self.to_spawn.push(ChatEvent::Line(line));
    }

    /// Queues a highlighted line.
    pub fn show_highlighted_line(&mut self, line: String)
        ensures
            final(self).to_spawn@ == old(self).to_spawn@.push(ChatEvent::HighlightedLine(line)),
            final(self).selected_option == old(self).selected_option,
            final(self).available_options == old(self).available_options,
    {
        self.to_spawn.push(ChatEvent::HighlightedLine(line));
    }

    /// Queues a prompt with its options and selects the first option.
    pub fn prompt(&mut self, prompt: String, options: Vec<String>)
        ensures
            final(self).available_options == Some(options.len()),
            final(self).selected_option == Some(0usize),
            final(self).to_spawn@ == old(self).to_spawn@.push(ChatEvent::Prompt { prompt, options }),
    {
        self.available_options = Some(options.len());
        self.selected_option = Some(0);
        self.to_spawn.push(ChatEvent::Prompt { prompt, options });
    }

    /// Forgets the prompt being answered.
    pub fn clear_decision(&mut self)
        ensures
            final(self).selected_option is None,
            final(self).available_options is None,
            final(self).to_spawn@ == old(self).to_spawn@,
    {
        self.available_options = None;
        self.selected_option = None;
    }

    /// Moves the selection one option to the left, stopping at the first.
    pub fn select_previous(&mut self)
        requires
            old(self).wf(),
        ensures
            final(self).wf(),
            final(self).selected_option == (match old(self).selected_option {
                Some(s) => Some(if s > 0 { (s - 1) as usize } else { 0 }),
                None => None,
            }),
            final(self).available_options == old(self).available_options,
            final(self).to_spawn@ == old(self).to_spawn@,
    {
        if let Some(s) = self.selected_option {
            self.selected_option = Some(if s > 0 { s - 1 } else { 0 });
        }
    }

    /// Moves the selection one option to the right, stopping at the last.
    pub fn select_next(&mut self)
        requires
            old(self).wf(),
        ensures
            final(self).wf(),
            final(self).selected_option == (match (old(self).selected_option, old(self).available_options) {
                (Some(s), Some(n)) => Some(if s + 1 < n { (s + 1) as usize } else { (n - 1) as usize }),
                _ => old(self).selected_option,
            }),
            final(self).available_options == old(self).available_options,
            final(self).to_spawn@ == old(self).to_spawn@,
    {
        match (self.selected_option, self.available_options) {
            (Some(s), Some(n)) => {
                self.selected_option = Some(if s + 1 < n { s + 1 } else { n - 1 });
            },
            _ => {},
        }
    }

    /// The player confirms the selected option: it is returned and the prompt
    /// forgotten.
    pub fn confirm(&mut self) -> (r: Option<usize>)
        ensures
            r == old(self).selected_option,
            final(self).selected_option is None,
            final(self).available_options is None,
            final(self).to_spawn@ == old(self).to_spawn@,
    {
        let r = self.selected_option;
        self.clear_decision();
        r
    }

    /// Takes everything queued, leaving the queue empty.
    pub fn drain_events(&mut self) -> (r: Vec<ChatEvent>)
        ensures
            r@ == old(self).to_spawn@,
            final(self).to_spawn@.len() == 0,
            final(self).selected_option == old(self).selected_option,
            final(self).available_options == old(self).available_options,
    {
        let mut r: Vec<ChatEvent> = Vec::new();
        std::mem::swap(&mut r, &mut self.to_spawn);
        r
    }
}

} // verus!
