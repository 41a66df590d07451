//! What holds of every options event and of the history behind it.

use vstd::prelude::*;
use crate::cards::{WordKind, WordSpan};
use crate::dialogue::choice_index;
use crate::options::{
    Offer, joined_pair, offered_options, offered_phrasing, offered_pieces, options_event,
};
use crate::phrasing::{
    add_token, card_key, card_words, is_fallback, is_important, plain_kind, spans_of,
};
use crate::registry::{
    CardView, cleared_registry, discarded_registry, offered_card, offered_registry,
    played_registry, with_status,
};
use crate::story::{StoryState, chosen_before, recorded};
use crate::text::{split, trim};

verus! {

/// Whether the phrasing `piece` offers the card under `key`.
pub open spec fn names_card(piece: Seq<char>, key: Seq<char>) -> bool {
    !is_fallback(trim(piece)) && card_key(trim(piece)) == key
}

/// The position of the last of `pieces` that offers the card under `key`, or
/// -1 where none does.
pub open spec fn last_naming(pieces: Seq<Seq<char>>, key: Seq<char>) -> int
    decreases pieces.len(),
{
    if pieces.len() == 0 {
        -1
    } else if names_card(pieces.last(), key) {
        pieces.len() - 1
    } else {
        last_naming(pieces.drop_last(), key)
    }
}

/// The position of the last of `options` with a phrasing that offers the card
/// under `key`, or -1 where none has one.
pub open spec fn naming_option(options: Seq<Seq<char>>, key: Seq<char>) -> int
    decreases options.len(),
{
    if options.len() == 0 {
        -1
    } else if last_naming(split(options.last(), '|'), key) >= 0 {
        options.len() - 1
    } else {
        naming_option(options.drop_last(), key)
    }
}

/// The words that the option with the text `option` gives the card under
/// `key`: those of its last phrasing that offers the card.
pub open spec fn named_words(
    option: Seq<char>,
    key: Seq<char>,
    history: Map<u64, Seq<Seq<char>>>,
    question: u64,
) -> Seq<WordSpan> {
    let pieces = split(option, '|');
    card_words(trim(pieces[last_naming(pieces, key)]), chosen_before(history, question, key))
}

/// Whether one of `pieces` is the fallback phrasing.
pub open spec fn has_fallback(pieces: Seq<Seq<char>>) -> bool
    decreases pieces.len(),
{
    pieces.len() > 0 && (is_fallback(trim(pieces.last())) || has_fallback(pieces.drop_last()))
}

/// The position of the last of `options` with the fallback phrasing, or -1.
pub open spec fn fallback_option(options: Seq<Seq<char>>) -> int
    decreases options.len(),
{
    if options.len() == 0 {
        -1
    } else if has_fallback(split(options.last(), '|')) {
        options.len() - 1
    } else {
        fallback_option(options.drop_last())
    }
}

/// The last phrasing that offers a card is one of the phrasings and offers
/// it; no later one does.
pub proof fn last_naming_names(pieces: Seq<Seq<char>>, key: Seq<char>)
    ensures
        -1 <= last_naming(pieces, key) < pieces.len(),
        last_naming(pieces, key) >= 0 ==> names_card(pieces[last_naming(pieces, key)], key),
        forall|j: int|
            last_naming(pieces, key) < j < pieces.len() ==> !names_card(#[trigger] pieces[j], key),
    decreases pieces.len(),
{
    if pieces.len() > 0 {
        last_naming_names(pieces.drop_last(), key);
        if !names_card(pieces.last(), key) {
            assert forall|j: int| last_naming(pieces, key) < j < pieces.len() implies !names_card(
                #[trigger] pieces[j],
                key,
            ) by {
                if j < pieces.len() - 1 {
                    assert(pieces.drop_last()[j] == pieces[j]);
                }
            }
        }
    }
}

/// The last option that offers a card is one of the options and offers it;
/// no later one does.
pub proof fn naming_option_names(options: Seq<Seq<char>>, key: Seq<char>)
    ensures
        -1 <= naming_option(options, key) < options.len(),
        naming_option(options, key) >= 0 ==> last_naming(
            split(options[naming_option(options, key)], '|'),
            key,
        ) >= 0,
        forall|j: int|
            naming_option(options, key) < j < options.len() ==> last_naming(
                split(#[trigger] options[j], '|'),
                key,
            ) < 0,
    decreases options.len(),
{
    if options.len() > 0 {
        naming_option_names(options.drop_last(), key);
        if last_naming(split(options.last(), '|'), key) < 0 {
            assert forall|j: int| naming_option(options, key) < j < options.len() implies last_naming(
                split(#[trigger] options[j], '|'),
                key,
            ) < 0 by {
                if j < options.len() - 1 {
                    assert(options.drop_last()[j] == options[j]);
                }
            }
        }
    }
}

/// What the phrasings of one option leave under a key: the entry as it was
/// where none of them offers the card, else the card offered once, with the
/// words of the last phrasing that offers it.
pub proof fn pieces_settle(
    o: Offer,
    index: usize,
    pieces: Seq<Seq<char>>,
    history: Map<u64, Seq<Seq<char>>>,
    question: u64,
    key: Seq<char>,
)
    ensures
        ({
            let after = offered_pieces(o, index, pieces, history, question);
            let m = last_naming(pieces, key);
            if m < 0 {
                &&& after.registry.contains_key(key) == o.registry.contains_key(key)
                &&& o.registry.contains_key(key) ==> after.registry[key] == o.registry[key]
            } else {
                &&& m < pieces.len()
                &&& after.registry.contains_key(key)
                &&& after.registry[key] == offered_card(
                    o.registry,
                    key,
                    card_words(trim(pieces[m]), chosen_before(history, question, key)),
                    index,
                )
            }
        }),
    decreases pieces.len(),
{
    if pieces.len() > 0 {
        pieces_settle(o, index, pieces.drop_last(), history, question, key);
        last_naming_names(pieces.drop_last(), key);
        let m = last_naming(pieces.drop_last(), key);
        if m >= 0 {
            assert(pieces.drop_last()[m] == pieces[m]);
        }
    }
}

/// What an options event leaves under a key, before the forgetting of
/// indices: the entry as it was where no option offers the card, else the
/// card offered once, as the last option that offers it, with that option's
/// words.
pub proof fn options_settle(
    o: Offer,
    options: Seq<Seq<char>>,
    history: Map<u64, Seq<Seq<char>>>,
    question: u64,
    key: Seq<char>,
)
    requires
        options.len() <= usize::MAX,
    ensures
        ({
            let after = offered_options(o, options, history, question);
            let i = naming_option(options, key);
            if i < 0 {
                &&& after.registry.contains_key(key) == o.registry.contains_key(key)
                &&& o.registry.contains_key(key) ==> after.registry[key] == o.registry[key]
            } else {
                &&& i < options.len()
                &&& after.registry.contains_key(key)
                &&& after.registry[key] == offered_card(
                    o.registry,
                    key,
                    named_words(options[i], key, history, question),
                    i as usize,
                )
            }
        }),
    decreases options.len(),
{
    if options.len() > 0 {
        let before = offered_options(o, options.drop_last(), history, question);
        options_settle(o, options.drop_last(), history, question, key);
        naming_option_names(options.drop_last(), key);
        pieces_settle(
            before,
            (options.len() - 1) as usize,
            split(options.last(), '|'),
            history,
            question,
            key,
        );
        let i = naming_option(options.drop_last(), key);
        if i >= 0 {
            assert(options.drop_last()[i] == options[i]);
        }
    }
}

/// The fallback option after the phrasings of one option: that option where
/// one of them is the fallback phrasing, else the one before.
pub proof fn pieces_fallback(
    o: Offer,
    index: usize,
    pieces: Seq<Seq<char>>,
    history: Map<u64, Seq<Seq<char>>>,
    question: u64,
)
    ensures
        offered_pieces(o, index, pieces, history, question).other_option == if has_fallback(
            pieces,
        ) {
            index
        } else {
            o.other_option
        },
    decreases pieces.len(),
{
    if pieces.len() > 0 {
        pieces_fallback(o, index, pieces.drop_last(), history, question);
    }
}

/// The fallback option after an options event: the last option with the
/// fallback phrasing, or the one recorded before where no option has it.
pub proof fn fallback_is_the_last_other(
    o: Offer,
    options: Seq<Seq<char>>,
    history: Map<u64, Seq<Seq<char>>>,
    question: u64,
)
    requires
        options.len() <= usize::MAX,
    ensures
        -1 <= fallback_option(options) < options.len(),
        options_event(o, options, history, question).other_option == if fallback_option(options)
            >= 0 {
            fallback_option(options) as usize
        } else {
            o.other_option
        },
    decreases options.len(),
{
    let start = Offer { registry: cleared_registry(o.registry), ..o };
    fallback_after(start, options, history, question);
}

proof fn fallback_after(
    o: Offer,
    options: Seq<Seq<char>>,
    history: Map<u64, Seq<Seq<char>>>,
    question: u64,
)
    requires
        options.len() <= usize::MAX,
    ensures
        -1 <= fallback_option(options) < options.len(),
        offered_options(o, options, history, question).other_option == if fallback_option(options)
            >= 0 {
            fallback_option(options) as usize
        } else {
            o.other_option
        },
    decreases options.len(),
{
    if options.len() > 0 {
        fallback_after(o, options.drop_last(), history, question);
        pieces_fallback(
            offered_options(o, options.drop_last(), history, question),
            (options.len() - 1) as usize,
            split(options.last(), '|'),
            history,
            question,
        );
    }
}

/// All phrasings of one option stand for that option. Take an options event
/// and two phrasings of its option `i`, neither of them the fallback
/// phrasing. If no later option offers their cards again and the cards are
/// not used up, then after the event both cards hold the index `i`, and
/// choosing either, once shown, resolves to `i`.
pub proof fn phrasings_share_their_option(
    o: Offer,
    options: Seq<Seq<char>>,
    history: Map<u64, Seq<Seq<char>>>,
    question: u64,
    i: int,
    a: int,
    b: int,
)
    requires
        0 <= i < options.len() <= usize::MAX,
        0 <= a < split(options[i], '|').len(),
        0 <= b < split(options[i], '|').len(),
        !is_fallback(trim(split(options[i], '|')[a])),
        !is_fallback(trim(split(options[i], '|')[b])),
        forall|j: int|
            i < j < options.len() ==> {
                &&& last_naming(
                    split(#[trigger] options[j], '|'),
                    card_key(trim(split(options[i], '|')[a])),
                ) < 0
                &&& last_naming(split(options[j], '|'), card_key(trim(split(options[i], '|')[b])))
                    < 0
            },
        !(o.registry.contains_key(card_key(trim(split(options[i], '|')[a])))
            && o.registry[card_key(trim(split(options[i], '|')[a]))].status.is_played()),
        !(o.registry.contains_key(card_key(trim(split(options[i], '|')[b])))
            && o.registry[card_key(trim(split(options[i], '|')[b]))].status.is_played()),
    ensures
        ({
            let after = options_event(o, options, history, question);
            let key_a = card_key(trim(split(options[i], '|')[a]));
            let key_b = card_key(trim(split(options[i], '|')[b]));
            &&& after.registry.contains_key(key_a)
            &&& after.registry.contains_key(key_b)
            &&& after.registry[key_a].status.index() == Some(i as usize)
            &&& after.registry[key_b].status.index() == Some(i as usize)
            &&& forall|handle: u64, fallback: usize|
                #![trigger after.registry[key_a].status.rendered(handle).resolved(fallback)]
                {
                    &&& after.registry[key_a].status.rendered(handle).resolved(fallback) == Some(
                        i as usize,
                    )
                    &&& after.registry[key_b].status.rendered(handle).resolved(fallback) == Some(
                        i as usize,
                    )
                }
        }),
{
    let pieces = split(options[i], '|');
    let key_a = card_key(trim(pieces[a]));
    let key_b = card_key(trim(pieces[b]));
    let start = Offer { registry: cleared_registry(o.registry), ..o };
    options_settle(start, options, history, question, key_a);
    options_settle(start, options, history, question, key_b);
    naming_option_names(options, key_a);
    naming_option_names(options, key_b);
    last_naming_names(pieces, key_a);
    last_naming_names(pieces, key_b);
    assert(names_card(pieces[a], key_a));
    assert(names_card(pieces[b], key_b));
    assert(naming_option(options, key_a) == i);
    assert(naming_option(options, key_b) == i);
}

/// A shown card that an options event does not offer falls back. If no
/// option of the event offers the card under `key` and the card is shown,
/// then after the event the card holds no index, and choosing it resolves to
/// the fallback option that the event recorded.
pub proof fn unnamed_cards_fall_back(
    o: Offer,
    options: Seq<Seq<char>>,
    history: Map<u64, Seq<Seq<char>>>,
    question: u64,
    key: Seq<char>,
)
    requires
        options.len() <= usize::MAX,
        o.registry.contains_key(key),
        o.registry[key].status is Card,
        naming_option(options, key) < 0,
    ensures
        ({
            let after = options_event(o, options, history, question);
            &&& after.registry.contains_key(key)
            &&& after.registry[key].status.index() is None
            &&& choice_index(after.registry, key, after.other_option) == Some(after.other_option)
        }),
{
    let start = Offer { registry: cleared_registry(o.registry), ..o };
    options_settle(start, options, history, question, key);
}

/// Whether the order of an offer holds each key of its registry, and each
/// once.
pub open spec fn tidy(o: Offer) -> bool {
    &&& o.order.no_duplicates()
    &&& forall|k: Seq<char>| o.registry.contains_key(k) <==> o.order.contains(k)
}

proof fn phrasing_keeps_tidy(
    o: Offer,
    index: usize,
    piece: Seq<char>,
    history: Map<u64, Seq<Seq<char>>>,
    question: u64,
)
    requires
        tidy(o),
    ensures
        tidy(offered_phrasing(o, index, piece, history, question)),
{
    let after = offered_phrasing(o, index, piece, history, question);
    let key = card_key(trim(piece));
    if !is_fallback(trim(piece)) && !o.registry.contains_key(key) {
        assert(!o.order.contains(key));
        assert forall|i: int, j: int|
            0 <= i < after.order.len() && 0 <= j < after.order.len() && i != j implies after.order[i]
            != after.order[j] by {
            if i < o.order.len() {
                assert(o.order.contains(o.order[i]));
            }
            if j < o.order.len() {
                assert(o.order.contains(o.order[j]));
            }
        }
        assert forall|k: Seq<char>| after.registry.contains_key(k) <==> after.order.contains(
            k,
        ) by {
            if after.order.contains(k) {
                let i = choose|i: int| 0 <= i < after.order.len() && after.order[i] == k;
                if i < o.order.len() {
                    assert(o.order.contains(o.order[i]));
                }
            }
            if o.order.contains(k) {
                let i = choose|i: int| 0 <= i < o.order.len() && o.order[i] == k;
                assert(after.order[i] == k);
            }
            if k == key {
                assert(after.order[o.order.len() as int] == key);
            }
        }
    }
}

proof fn pieces_keep_tidy(
    o: Offer,
    index: usize,
    pieces: Seq<Seq<char>>,
    history: Map<u64, Seq<Seq<char>>>,
    question: u64,
)
    requires
        tidy(o),
    ensures
        tidy(offered_pieces(o, index, pieces, history, question)),
    decreases pieces.len(),
{
    if pieces.len() > 0 {
        pieces_keep_tidy(o, index, pieces.drop_last(), history, question);
        phrasing_keeps_tidy(
            offered_pieces(o, index, pieces.drop_last(), history, question),
            index,
            pieces.last(),
            history,
            question,
        );
    }
}

proof fn offers_keep_tidy(
    o: Offer,
    options: Seq<Seq<char>>,
    history: Map<u64, Seq<Seq<char>>>,
    question: u64,
)
    requires
        tidy(o),
    ensures
        tidy(offered_options(o, options, history, question)),
    decreases options.len(),
{
    if options.len() > 0 {
        offers_keep_tidy(o, options.drop_last(), history, question);
        pieces_keep_tidy(
            offered_options(o, options.drop_last(), history, question),
            (options.len() - 1) as usize,
            split(options.last(), '|'),
            history,
            question,
        );
    }
}

/// An options event makes no second entry for a key: where the order held
/// each key of the registry once before the event, it does so after it.
pub proof fn options_make_no_duplicates(
    o: Offer,
    options: Seq<Seq<char>>,
    history: Map<u64, Seq<Seq<char>>>,
    question: u64,
)
    requires
        tidy(o),
    ensures
        tidy(options_event(o, options, history, question)),
{
    let start = Offer { registry: cleared_registry(o.registry), ..o };
    assert(tidy(start));
    offers_keep_tidy(start, options, history, question);
}

proof fn pieces_add_no_known_key(
    o: Offer,
    index: usize,
    pieces: Seq<Seq<char>>,
    history: Map<u64, Seq<Seq<char>>>,
    question: u64,
)
    requires
        forall|k: Seq<char>| last_naming(pieces, k) >= 0 ==> o.registry.contains_key(k),
    ensures
        offered_pieces(o, index, pieces, history, question).order == o.order,
        offered_pieces(o, index, pieces, history, question).registry.dom() =~= o.registry.dom(),
    decreases pieces.len(),
{
    if pieces.len() > 0 {
        assert forall|k: Seq<char>| last_naming(pieces.drop_last(), k) >= 0 implies o.registry.contains_key(
            k,
        ) by {
            assert(last_naming(pieces, k) >= 0);
        }
        pieces_add_no_known_key(o, index, pieces.drop_last(), history, question);
        let before = offered_pieces(o, index, pieces.drop_last(), history, question);
        let key = card_key(trim(pieces.last()));
        if !is_fallback(trim(pieces.last())) {
            assert(last_naming(pieces, key) >= 0);
            assert(before.registry.dom().contains(key));
        }
    }
}

proof fn offers_add_no_known_key(
    o: Offer,
    options: Seq<Seq<char>>,
    history: Map<u64, Seq<Seq<char>>>,
    question: u64,
)
    requires
        forall|k: Seq<char>| naming_option(options, k) >= 0 ==> o.registry.contains_key(k),
    ensures
        offered_options(o, options, history, question).order == o.order,
        offered_options(o, options, history, question).registry.dom() =~= o.registry.dom(),
    decreases options.len(),
{
    if options.len() > 0 {
        assert forall|k: Seq<char>| naming_option(options.drop_last(), k) >= 0 implies o.registry.contains_key(
            k,
        ) by {
            assert(naming_option(options, k) >= 0);
        }
        offers_add_no_known_key(o, options.drop_last(), history, question);
        let before = offered_options(o, options.drop_last(), history, question);
        assert forall|k: Seq<char>|
            last_naming(split(options.last(), '|'), k) >= 0 implies before.registry.contains_key(
            k,
        ) by {
            assert(naming_option(options, k) >= 0);
            assert(o.registry.dom().contains(k));
        }
        pieces_add_no_known_key(
            before,
            (options.len() - 1) as usize,
            split(options.last(), '|'),
            history,
            question,
        );
    }
}

/// An options event leaves used-up cards alone, and handling the same event
/// again changes nothing: with the same options, history and question, the
/// registry, its order and the fallback option after the second handling are
/// those after the first.
pub proof fn offering_again_changes_nothing(
    o: Offer,
    options: Seq<Seq<char>>,
    history: Map<u64, Seq<Seq<char>>>,
    question: u64,
)
    requires
        options.len() <= usize::MAX,
    ensures
        ({
            let once = options_event(o, options, history, question);
            let twice = options_event(once, options, history, question);
            &&& twice.registry == once.registry
            &&& twice.order == once.order
            &&& twice.other_option == once.other_option
            &&& forall|key: Seq<char>|
                #[trigger] o.registry.contains_key(key) && o.registry[key].status.is_played()
                    ==> once.registry.contains_key(key) && once.registry[key] == o.registry[key]
        }),
{
    let start = Offer { registry: cleared_registry(o.registry), ..o };
    let once = options_event(o, options, history, question);
    let again = Offer { registry: cleared_registry(once.registry), ..once };
    let twice = options_event(once, options, history, question);
    fallback_is_the_last_other(o, options, history, question);
    fallback_is_the_last_other(once, options, history, question);
    assert forall|key: Seq<char>| #[trigger]
        once.registry.dom().contains(key) == twice.registry.dom().contains(key) by {
        options_settle(start, options, history, question, key);
        options_settle(again, options, history, question, key);
    }
    assert forall|key: Seq<char>| once.registry.dom().contains(key) implies #[trigger] once.registry[key]
        == twice.registry[key] by {
        options_settle(start, options, history, question, key);
        options_settle(again, options, history, question, key);
    }
    assert(twice.registry =~= once.registry);
    assert forall|key: Seq<char>| naming_option(options, key) >= 0 implies again.registry.contains_key(
        key,
    ) by {
        options_settle(start, options, history, question, key);
    }
    offers_add_no_known_key(again, options, history, question);
    assert forall|key: Seq<char>|
        #[trigger] o.registry.contains_key(key) && o.registry[key].status.is_played()
            implies once.registry.contains_key(key) && once.registry[key] == o.registry[key] by {
        options_settle(start, options, history, question, key);
    }
}

/// A history that was stored and read back styles the cards as before: the
/// effect of an options event depends on the story only through the content
/// of its history and its current question.
pub proof fn reloaded_history_styles_alike(
    stored: StoryState,
    reloaded: StoryState,
    o: Offer,
    options: Seq<Seq<char>>,
)
    requires
        reloaded.history() == stored.history(),
        reloaded.current_question == stored.current_question,
    ensures
        options_event(o, options, reloaded.history(), reloaded.current_question) == options_event(
            o,
            options,
            stored.history(),
            stored.current_question,
        ),
        forall|p: Seq<char>|
            #![trigger card_key(p)]
            card_words(
                p,
                chosen_before(reloaded.history(), reloaded.current_question, card_key(p)),
            ) == card_words(
                p,
                chosen_before(stored.history(), stored.current_question, card_key(p)),
            ),
{
}

/// A key that was recorded for a question stands in the history under that
/// question, whatever else is recorded later for any question.
pub proof fn recorded_choices_stay(
    history: Map<u64, Seq<Seq<char>>>,
    question: u64,
    key: Seq<char>,
    later_question: u64,
    later_key: Seq<char>,
)
    ensures
        chosen_before(recorded(history, question, key), question, key),
        chosen_before(history, question, key) ==> chosen_before(
            recorded(history, later_question, later_key),
            question,
            key,
        ),
{
    let now = recorded(history, question, key);
    assert(now[question].last() == key);
    if chosen_before(history, question, key) {
        let i = choose|i: int| 0 <= i < history[question].len() && history[question][i] == key;
        let next = recorded(history, later_question, later_key);
        if later_question == question {
            assert(next[question][i] == key);
        }
    }
}

/// The runs of a card are styled by the history alone: every run is varying
/// or has the style that tells whether the card was chosen before.
pub proof fn runs_follow_the_history(toks: Seq<Seq<char>>, chosen: bool)
    ensures
        forall|i: int|
            0 <= i < spans_of(toks, plain_kind(chosen)).len() ==> {
                let kind = (#[trigger] spans_of(toks, plain_kind(chosen))[i]).kind;
                kind == WordKind::Varying || kind == plain_kind(chosen)
            },
    decreases toks.len(),
{
    if toks.len() > 0 {
        runs_follow_the_history(toks.drop_last(), chosen);
        let before = spans_of(toks.drop_last(), plain_kind(chosen));
        let after = add_token(before, toks.last(), plain_kind(chosen));
        assert(after == spans_of(toks, plain_kind(chosen)));
    }
}

/// A used-up card is never revived: whatever is done to the registry, to
/// this card or to another, an entry that is used up stays used up, and only
/// the discarding of all cards may touch it at all.
pub proof fn played_cards_stay_played(
    reg: Map<Seq<char>, CardView>,
    key: Seq<char>,
    other: Seq<char>,
    words: Seq<WordSpan>,
    index: usize,
    handle: u64,
)
    requires
        reg.contains_key(key),
        reg[key].status.is_played(),
    ensures
        cleared_registry(reg)[key] == reg[key],
        offered_registry(reg, other, words, index)[key] == reg[key],
        played_registry(reg, other)[key] == reg[key],
        reg.contains_key(other) ==> with_status(
            reg,
            other,
            reg[other].status.rendered(handle),
        )[key] == reg[key],
        discarded_registry(reg)[key] == reg[key],
{
}

/// Neighbouring words of one style are one run: of two runs that follow each
/// other, one at least is varying.
pub proof fn plain_runs_are_merged(toks: Seq<Seq<char>>, kind: WordKind)
    ensures
        forall|i: int|
            0 <= i && i + 1 < spans_of(toks, kind).len() ==> {
                ||| (#[trigger] spans_of(toks, kind)[i]).kind == WordKind::Varying
                ||| spans_of(toks, kind)[i + 1].kind == WordKind::Varying
            },
    decreases toks.len(),
{
    if toks.len() > 0 {
        plain_runs_are_merged(toks.drop_last(), kind);
        let before = spans_of(toks.drop_last(), kind);
        let after = add_token(before, toks.last(), kind);
        assert(after == spans_of(toks, kind));
        assert forall|i: int| 0 <= i && i + 1 < after.len() implies (#[trigger] after[i]).kind
            == WordKind::Varying || after[i + 1].kind == WordKind::Varying by {
            if i + 1 < before.len() {
                assert(before[i].kind == WordKind::Varying || before[i + 1].kind
                    == WordKind::Varying);
            }
        }
    }
}

/// The keys of the phrasings among `pieces` that belong to an important
/// pair, in order.
pub open spec fn important_keys_of(pieces: Seq<Seq<char>>) -> Seq<Seq<char>>
    decreases pieces.len(),
{
    if pieces.len() == 0 {
        Seq::<Seq<char>>::empty()
    } else if !is_fallback(trim(pieces.last())) && is_important(trim(pieces.last())) {
        important_keys_of(pieces.drop_last()).push(card_key(trim(pieces.last())))
    } else {
        important_keys_of(pieces.drop_last())
    }
}

/// The keys of the phrasings of `options` that belong to an important pair,
/// in order.
pub open spec fn important_keys(options: Seq<Seq<char>>) -> Seq<Seq<char>>
    decreases options.len(),
{
    if options.len() == 0 {
        Seq::<Seq<char>>::empty()
    } else {
        important_keys(options.drop_last()) + important_keys_of(split(options.last(), '|'))
    }
}

/// The pair once the keys `keys` have joined it, in order.
pub open spec fn pair_after(
    pair: (Option<Seq<char>>, Option<Seq<char>>),
    keys: Seq<Seq<char>>,
) -> (Option<Seq<char>>, Option<Seq<char>>)
    decreases keys.len(),
{
    if keys.len() == 0 {
        pair
    } else {
        joined_pair(pair_after(pair, keys.drop_last()), keys.last())
    }
}

proof fn pair_after_both(
    pair: (Option<Seq<char>>, Option<Seq<char>>),
    a: Seq<Seq<char>>,
    b: Seq<Seq<char>>,
)
    ensures
        pair_after(pair, a + b) == pair_after(pair_after(pair, a), b),
    decreases b.len(),
{
    if b.len() == 0 {
        assert(a + b =~= a);
    } else {
        pair_after_both(pair, a, b.drop_last());
        assert((a + b).drop_last() =~= a + b.drop_last());
        assert((a + b).last() == b.last());
    }
}

proof fn pieces_join_the_pair(
    o: Offer,
    index: usize,
    pieces: Seq<Seq<char>>,
    history: Map<u64, Seq<Seq<char>>>,
    question: u64,
)
    ensures
        offered_pieces(o, index, pieces, history, question).pair == pair_after(
            o.pair,
            important_keys_of(pieces),
        ),
        offered_pieces(o, index, pieces, history, question).important == (o.important
            || important_keys_of(pieces).len() > 0),
    decreases pieces.len(),
{
    if pieces.len() > 0 {
        pieces_join_the_pair(o, index, pieces.drop_last(), history, question);
        let keys = important_keys_of(pieces);
        if !is_fallback(trim(pieces.last())) && is_important(trim(pieces.last())) {
            assert(keys.drop_last() =~= important_keys_of(pieces.drop_last()));
        }
    }
}

proof fn offers_join_the_pair(
    o: Offer,
    options: Seq<Seq<char>>,
    history: Map<u64, Seq<Seq<char>>>,
    question: u64,
)
    ensures
        offered_options(o, options, history, question).pair == pair_after(
            o.pair,
            important_keys(options),
        ),
        offered_options(o, options, history, question).important == (o.important
            || important_keys(options).len() > 0),
    decreases options.len(),
{
    if options.len() > 0 {
        offers_join_the_pair(o, options.drop_last(), history, question);
        pieces_join_the_pair(
            offered_options(o, options.drop_last(), history, question),
            (options.len() - 1) as usize,
            split(options.last(), '|'),
            history,
            question,
        );
        pair_after_both(
            o.pair,
            important_keys(options.drop_last()),
            important_keys_of(split(options.last(), '|')),
        );
    }
}

proof fn empty_pair_after(keys: Seq<Seq<char>>)
    ensures
        pair_after((None, None), keys).0 == if keys.len() > 0 {
            Some(keys[0])
        } else {
            None
        },
        pair_after((None, None), keys).1 == if keys.len() > 1 {
            Some(keys.last())
        } else {
            None
        },
    decreases keys.len(),
{
    if keys.len() > 0 {
        empty_pair_after(keys.drop_last());
    }
}

/// The important phrasings of an options event make the pair. Where the pair
/// is empty before the event, the key of the first important phrasing takes
/// the first place and the key of the second takes the second place; a later
/// one, if the script has more than two, replaces the one in the second
/// place. An important pair is on show after the event if one was before or
/// the event has an important phrasing.
pub proof fn important_phrasings_make_the_pair(
    o: Offer,
    options: Seq<Seq<char>>,
    history: Map<u64, Seq<Seq<char>>>,
    question: u64,
)
    requires
        o.pair == (None::<Seq<char>>, None::<Seq<char>>),
    ensures
        ({
            let after = options_event(o, options, history, question);
            let keys = important_keys(options);
            &&& after.pair.0 == if keys.len() > 0 {
                Some(keys[0])
            } else {
                None
            }
            &&& after.pair.1 == if keys.len() > 1 {
                Some(keys.last())
            } else {
                None
            }
            &&& after.important == (o.important || keys.len() > 0)
        }),
{
    let start = Offer { registry: cleared_registry(o.registry), ..o };
    offers_join_the_pair(start, options, history, question);
    empty_pair_after(important_keys(options));
}

} // verus!
