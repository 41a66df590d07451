//! The dialogue session: what the script's events are and what the game waits
//! for between them.

use vstd::prelude::*;

verus! {

/// An event that the script interpreter hands out, with its texts resolved.
pub enum ScriptEvent {
    /// A line of dialogue.
    Line(String),
    /// The options of a question, in the interpreter's order.
    Options(Vec<String>),
    /// A command for the game.
    Command(String),
    /// A call of a function that the host computes.
    Function,
}

/// The session's flags and counters.
pub struct YarnManager {
    /// A line is shown and the player has not yet asked for the next.
    pub waiting_continue: bool,
    /// Options are shown and the player has not yet chosen.
    pub waiting_response: bool,
    /// An important pair is on show.
    pub important_decision: bool,
    /// The script has ended.
    pub finished: bool,
    /// The pause timer: the time elapsed and the time to reach, in timer
    /// units.
    pub wait_timer: (u64, u64),
    /// The option that a card without an option index stands for.
    pub other_option: usize,
}

impl YarnManager {
    /// Whether a pause is running: the timer has not reached its target.
    pub open spec fn paused(&self) -> bool {
        self.wait_timer.0 < self.wait_timer.1
    }

    /// A session that waits for nothing.
    pub fn new() -> (r: YarnManager)
        ensures
            !r.waiting_continue,
            !r.waiting_response,
            !r.important_decision,
            !r.finished,
            r.wait_timer == (0u64, 0u64),
            r.other_option == 0,
    {
        YarnManager {
            waiting_continue: false,
            waiting_response: false,
            important_decision: false,
            finished: false,
            wait_timer: (0, 0),
            other_option: 0,
        }
    }

    /// Whether a pause is running.
    pub fn is_paused(&self) -> (r: bool)
        ensures
            r == self.paused(),
    {
        self.wait_timer.0 < self.wait_timer.1
    }
}

impl Default for YarnManager {
    fn default() -> (r: YarnManager)
        ensures
            !r.waiting_continue,
            !r.waiting_response,
            !r.important_decision,
            !r.finished,
            r.wait_timer == (0u64, 0u64),
            r.other_option == 0,
    {
        YarnManager::new()
    }
}

} // verus!
