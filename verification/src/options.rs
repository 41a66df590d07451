//! The options event: how the offered options become cards.

use vstd::prelude::*;
use crate::phrasing::{
    card_key, card_words, is_fallback, is_fallback_phrasing, is_important, is_important_phrasing,
    key_of_phrasing, words_of_tokens,
};
use crate::registry::{CardView, cleared_registry, offered_registry, texts};
use crate::state::DialogueState;
use crate::story::{StoryState, chosen_before};
use crate::text::{chars_of, split, split_chars, tokens_of, trim, trim_chars, views};
use crate::yarn::YarnManager;

verus! {

/// What an options event works on: the registry with its order, the fallback
/// option, and the important pair with its flag.
pub struct Offer {
    pub registry: Map<Seq<char>, CardView>,
    pub order: Seq<Seq<char>>,
    pub other_option: usize,
    pub pair: (Option<Seq<char>>, Option<Seq<char>>),
    pub important: bool,
}

/// The part of the table and the session that an options event works on.
pub open spec fn offer_of(state: DialogueState, yarn: YarnManager) -> Offer {
    Offer {
        registry: state.cards@,
        order: state.cards.order(),
        other_option: yarn.other_option,
        pair: state.pair(),
        important: yarn.important_decision,
    }
}

/// The pair once `key` has joined it: in the first place if that is free,
/// else in the second.
pub open spec fn joined_pair(pair: (Option<Seq<char>>, Option<Seq<char>>), key: Seq<char>) -> (
    Option<Seq<char>>,
    Option<Seq<char>>,
) {
    if pair.0 is None {
        (Some(key), pair.1)
    } else {
        (pair.0, Some(key))
    }
}

/// The effect of one phrasing of option `index`. The phrasing is trimmed.
/// `other` makes the option the fallback and names no card. Any other
/// phrasing offers the card of its key with its words, styled by whether the
/// history holds the key under the question; one that starts with `!` also
/// joins the important pair.
pub open spec fn offered_phrasing(
    o: Offer,
    index: usize,
    piece: Seq<char>,
    history: Map<u64, Seq<Seq<char>>>,
    question: u64,
) -> Offer {
    let p = trim(piece);
    let key = card_key(p);
    if is_fallback(p) {
        Offer { other_option: index, ..o }
    } else {
        Offer {
            registry: offered_registry(
                o.registry,
                key,
                card_words(p, chosen_before(history, question, key)),
                index,
            ),
            order: if o.registry.contains_key(key) {
                o.order
            } else {
                o.order.push(key)
            },
            other_option: o.other_option,
            pair: if is_important(p) {
                joined_pair(o.pair, key)
            } else {
                o.pair
            },
            important: o.important || is_important(p),
        }
    }
}

/// The effect of the phrasings `pieces` of option `index`, in order.
pub open spec fn offered_pieces(
    o: Offer,
    index: usize,
    pieces: Seq<Seq<char>>,
    history: Map<u64, Seq<Seq<char>>>,
    question: u64,
) -> Offer
    decreases pieces.len(),
{
    if pieces.len() == 0 {
        o
    } else {
        offered_phrasing(
            offered_pieces(o, index, pieces.drop_last(), history, question),
            index,
            pieces.last(),
            history,
            question,
        )
    }
}

/// The effect of the options with the texts `options`, in order: each text
/// holds the phrasings of one option, with `|` between them, and the option's
/// index is its position.
pub open spec fn offered_options(
    o: Offer,
    options: Seq<Seq<char>>,
    history: Map<u64, Seq<Seq<char>>>,
    question: u64,
) -> Offer
    decreases options.len(),
{
    if options.len() == 0 {
        o
    } else {
        offered_pieces(
            offered_options(o, options.drop_last(), history, question),
            (options.len() - 1) as usize,
            split(options.last(), '|'),
            history,
            question,
        )
    }
}

/// The effect of an options event: the shown cards forget their option
/// indices, then the options are offered.
pub open spec fn options_event(
    o: Offer,
    options: Seq<Seq<char>>,
    history: Map<u64, Seq<Seq<char>>>,
    question: u64,
) -> Offer {
    offered_options(
        Offer { registry: cleared_registry(o.registry), ..o },
        options,
        history,
        question,
    )
}

/// Whether two states differ at most in what an options event works on.
pub open spec fn same_but_offer(
    s0: DialogueState,
    y0: YarnManager,
    s1: DialogueState,
    y1: YarnManager,
) -> bool {
    &&& s1.selected_card == s0.selected_card
    &&& s1.previous_card == s0.previous_card
    &&& y1.waiting_continue == y0.waiting_continue
    &&& y1.waiting_response == y0.waiting_response
    &&& y1.finished == y0.finished
    &&& y1.wait_timer == y0.wait_timer
}

fn offer_phrasing(
    state: &mut DialogueState,
    story: &StoryState,
    yarn: &mut YarnManager,
    index: usize,
    piece: &Vec<char>,
)
    requires
        old(state).wf(),
    ensures
        final(state).wf(),
        offer_of(*final(state), *final(yarn)) == offered_phrasing(
            offer_of(*old(state), *old(yarn)),
            index,
            piece@,
            story.history(),
            story.current_question,
        ),
        same_but_offer(*old(state), *old(yarn), *final(state), *final(yarn)),
{
    let p = trim_chars(piece);
    if is_fallback_phrasing(&p) {
        yarn.other_option = index;
        return ;
    }
    let key = key_of_phrasing(&p);
    let chosen = story.was_chosen(key.as_str());
    let words = words_of_tokens(&tokens_of(&p), chosen);
    if is_important_phrasing(&p) {
        if state.important_decision.0.is_none() {
            state.important_decision.0 = Some(key.clone());
        } else {
            state.important_decision.1 = Some(key.clone());
        }
        yarn.important_decision = true;
    }
    state.cards.offer(key, words, index);
}

/// Handles an options event. `options` holds the text of each option, in the
/// interpreter's order. Afterwards the session waits for the player's choice.
pub fn offer_options(
    state: &mut DialogueState,
    story: &StoryState,
    yarn: &mut YarnManager,
    options: &Vec<String>,
)
    requires
        old(state).wf(),
    ensures
        final(state).wf(),
        offer_of(*final(state), *final(yarn)) == options_event(
            offer_of(*old(state), *old(yarn)),
            texts(options@),
            story.history(),
            story.current_question,
        ),
        final(yarn).waiting_response,
        final(yarn).waiting_continue == old(yarn).waiting_continue,
        final(yarn).finished == old(yarn).finished,
        final(yarn).wait_timer == old(yarn).wait_timer,
        final(state).selected_card == old(state).selected_card,
        final(state).previous_card == old(state).previous_card,
{
    state.cards.clear_indices();
    let ghost start = offer_of(*state, *yarn);
    let ghost history = story.history();
    let ghost question = story.current_question;
    let mut i: usize = 0;
    proof {
        assert(texts(options@).take(0) =~= Seq::<Seq<char>>::empty());
    }
    while i < options.len()
        invariant
            state.wf(),
            i <= options.len(),
            history == story.history(),
            question == story.current_question,
            offer_of(*state, *yarn) == offered_options(
                start,
                texts(options@).take(i as int),
                history,
                question,
            ),
            same_but_offer(*old(state), *old(yarn), *state, *yarn),
        decreases options.len() - i,
    {
        let pieces = split_chars(&chars_of(options[i].as_str()), '|');
        let ghost before = offer_of(*state, *yarn);
        let mut j: usize = 0;
        proof {
            assert(texts(options@).take(i + 1).drop_last() =~= texts(options@).take(i as int));
            assert(texts(options@).take(i + 1).last() == options@[i as int]@);
            assert(views(pieces@).take(0) =~= Seq::<Seq<char>>::empty());
        }
        while j < pieces.len()
            invariant
                state.wf(),
                j <= pieces.len(),
                history == story.history(),
                question == story.current_question,
                offer_of(*state, *yarn) == offered_pieces(
                    before,
                    i,
                    views(pieces@).take(j as int),
                    history,
                    question,
                ),
                same_but_offer(*old(state), *old(yarn), *state, *yarn),
            decreases pieces.len() - j,
        {
            proof {
                assert(views(pieces@).take(j + 1).drop_last() =~= views(pieces@).take(j as int));
                assert(views(pieces@).take(j + 1).last() == pieces@[j as int]@);
            }
            offer_phrasing(state, story, yarn, i, &pieces[j]);
            j += 1;
        }
        proof {
            assert(views(pieces@).take(pieces.len() as int) =~= views(pieces@));
        }
        i += 1;
    }
    proof {
        assert(texts(options@).take(options.len() as int) =~= texts(options@));
    }
    yarn.waiting_response = true;
}

} // verus!
