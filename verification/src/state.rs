//! The state of the card table: the registry, the hovered card and the
//! important pair.

use vstd::prelude::*;
use crate::registry::{CardView, OptionRegistry};

verus! {

/// The text of a string that may be missing.
pub open spec fn opt_text(o: Option<String>) -> Option<Seq<char>> {
    match o {
        Some(s) => Some(s@),
        None => None,
    }
}

/// The state of the card table.
pub struct DialogueState {
    /// The handle of the card under the pointer.
    pub selected_card: Option<u64>,
    /// The handle that `selected_card` held one pointer update earlier.
    pub previous_card: Option<u64>,
    /// The registry of option cards.
    pub cards: OptionRegistry,
    /// The keys of the two cards of an important pair.
    pub important_decision: (Option<String>, Option<String>),
}

impl DialogueState {
    /// The invariant of the state: that of its registry.
    pub open spec fn wf(&self) -> bool {
        self.cards.wf()
    }

    /// The keys of the important pair.
    pub open spec fn pair(&self) -> (Option<Seq<char>>, Option<Seq<char>>) {
        (opt_text(self.important_decision.0), opt_text(self.important_decision.1))
    }

    /// A table without cards.
    pub fn new() -> (r: DialogueState)
        ensures
            r.wf(),
            r.selected_card is None,
            r.previous_card is None,
            r.cards@ == Map::<Seq<char>, CardView>::empty(),
            r.cards.order() == Seq::<Seq<char>>::empty(),
            r.pair() == (None::<Seq<char>>, None::<Seq<char>>),
    {
        DialogueState {
            selected_card: None,
            previous_card: None,
            cards: OptionRegistry::new(),
            important_decision: (None, None),
        }
    }
}

impl Default for DialogueState {
    fn default() -> (r: DialogueState)
        ensures
            r.wf(),
            r.selected_card is None,
            r.previous_card is None,
            r.cards@ == Map::<Seq<char>, CardView>::empty(),
            r.cards.order() == Seq::<Seq<char>>::empty(),
            r.pair() == (None::<Seq<char>>, None::<Seq<char>>),
    {
        DialogueState::new()
    }
}

} // verus!
