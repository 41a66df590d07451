//! The story's lasting state: who is present, which endings are unlocked, and
//! which cards the player chose for each question.

use std::collections::hash_map::DefaultHasher;
use std::collections::HashMap;
use std::hash::{Hash, Hasher};
use vstd::prelude::*;
use vstd::std_specs::hash::*;
use crate::registry::texts;

verus! {

/// The number of endings the story has.
pub const NUM_ENDINGS: usize = 5;

/// What `str`'s implementation of `Hash` writes to a hasher for a text. The
/// writes depend on the text alone; which writes they are is the standard
/// library's matter.
pub uninterp spec fn text_hash_writes(text: Seq<char>) -> Seq<Seq<u8>>;

/// Feeds a text to a hasher, by `Hash::hash` of the standard library on `str`:
/// the hasher receives the writes that belong to the text, after those it
/// had received before.
#[verifier::external_body]
fn feed_text(state: &mut DefaultHasher, text: &str)
    ensures
        final(state)@ == old(state)@ + text_hash_writes(text@),
{
    text.hash(state)
}

/// The identifier of a question: the standard library's default hash of the
/// question's text.
pub open spec fn question_id(text: Seq<char>) -> u64 {
    DefaultHasher::spec_finish(text_hash_writes(text))
}

/// The identifier of the question with the given text.
pub fn hash_obj(text: &str) -> (id: u64)
    ensures
        id == question_id(text@),
{
    let mut state = DefaultHasher::new();
    feed_text(&mut state, text);
    assert(state@ =~= text_hash_writes(text@));
    state.finish()
}

/// Whether `key` stands in the history under `question`.
pub open spec fn chosen_before(
    history: Map<u64, Seq<Seq<char>>>,
    question: u64,
    key: Seq<char>,
) -> bool {
    history.contains_key(question) && history[question].contains(key)
}

/// The history with `key` added at the end of what stands under `question`.
pub open spec fn recorded(
    history: Map<u64, Seq<Seq<char>>>,
    question: u64,
    key: Seq<char>,
) -> Map<u64, Seq<Seq<char>>> {
    history.insert(
        question,
        if history.contains_key(question) {
            history[question].push(key)
        } else {
            seq![key]
        },
    )
}

/// The number of `true` members of `flags`.
pub open spec fn count_true(flags: Seq<bool>) -> nat
    decreases flags.len(),
{
    if flags.len() == 0 {
        0
    } else {
        count_true(flags.drop_last()) + if flags.last() {
            1nat
        } else {
            0nat
        }
    }
}

/// The story's lasting state.
pub struct StoryState {
    pub is_marco_here: bool,
    pub is_remie_here: bool,
    /// Which endings the player has reached, over all runs.
    pub endings: [bool; NUM_ENDINGS],
    /// For each question, the keys of the cards chosen for it, over all runs.
    pub selected_options: HashMap<u64, Vec<String>>,
    /// The question that the next options belong to.
    pub current_question: u64,
    /// Whether the player has acknowledged the end of the story.
    pub the_end: bool,
}

impl StoryState {
    /// The decision history: for each question, the card keys chosen for it.
    pub open spec fn history(&self) -> Map<u64, Seq<Seq<char>>> {
        Map::new(
            |q: u64| self.selected_options@.contains_key(q),
            |q: u64| texts(self.selected_options@[q]@),
        )
    }

    /// The state at the start of a run, with what the store held of earlier
    /// runs.
    pub fn new(endings: [bool; NUM_ENDINGS], selected_options: HashMap<u64, Vec<String>>) -> (r:
        StoryState)
        ensures
            !r.is_marco_here,
            r.is_remie_here,
            r.endings == endings,
            r.selected_options == selected_options,
            r.current_question == 0,
            !r.the_end,
    {
        StoryState {
            is_marco_here: false,
            is_remie_here: true,
            endings,
            selected_options,
            current_question: 0,
            the_end: false,
        }
    }

    /// Whether the player chose the card under `key` before for the current
    /// question.
    pub fn was_chosen(&self, key: &str) -> (r: bool)
        ensures
            r == chosen_before(self.history(), self.current_question, key@),
    {
        let wanted = key.to_owned();
        match self.selected_options.get(&self.current_question) {
            None => false,
            Some(keys) => {
                let mut i: usize = 0;
                while i < keys.len()
                    invariant
                        i <= keys.len(),
                        wanted@ == key@,
                        self.selected_options@.contains_key(self.current_question),
                        self.selected_options@[self.current_question] == *keys,
                        forall|j: int| 0 <= j < i ==> keys@[j]@ != key@,
                    decreases keys.len() - i,
                {
                    if keys[i] == wanted {
                        assert(texts(keys@)[i as int] == key@);
                        assert(texts(keys@).contains(key@));
                        return true;
                    }
                    i += 1;
                }
                assert(!texts(keys@).contains(key@)) by {
                    if texts(keys@).contains(key@) {
                        let j = choose|j: int|
                            0 <= j < texts(keys@).len() && texts(keys@)[j] == key@;
                        assert(keys@[j]@ == key@);
                    }
                }
                false
            },
        }
    }

    /// Adds `key` to the history of the current question.
    pub fn record_choice(&mut self, key: String)
        ensures
            final(self).history() == recorded(
                old(self).history(),
                old(self).current_question,
                key@,
            ),
            final(self).is_marco_here == old(self).is_marco_here,
            final(self).is_remie_here == old(self).is_remie_here,
            final(self).endings == old(self).endings,
            final(self).current_question == old(self).current_question,
            final(self).the_end == old(self).the_end,
    {
        let question = self.current_question;
        let ghost want = recorded(old(self).history(), question, key@);
        let mut keys = match self.selected_options.remove(&question) {
            Some(keys) => keys,
            None => Vec::new(),
        };
        let ghost before = texts(keys@);
        keys.push(key);
        assert(texts(keys@) =~= before.push(key@));
        assert(before.len() == 0 ==> before.push(key@) =~= seq![key@]);
        self.selected_options.insert(question, keys);
        assert(self.history() =~= want);
    }

    /// The number of endings reached.
    pub fn unlocked_endings(&self) -> (n: usize)
        ensures
            n == count_true(self.endings@),
            n <= NUM_ENDINGS,
    {
        let mut n: usize = 0;
        let mut i: usize = 0;
        assert(self.endings@.take(0) =~= Seq::<bool>::empty());
        while i < NUM_ENDINGS
            invariant
                i <= NUM_ENDINGS,
                n <= i,
                self.endings@.len() == NUM_ENDINGS,
                n == count_true(self.endings@.take(i as int)),
            decreases NUM_ENDINGS - i,
        {
            assert(self.endings@.take(i + 1).drop_last() =~= self.endings@.take(i as int));
            if self.endings[i] {
                n += 1;
            }
            i += 1;
        }
        assert(self.endings@.take(NUM_ENDINGS as int) =~= self.endings@);
        n
    }
}

} // verus!
