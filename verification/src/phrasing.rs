//! How one phrasing of an option becomes a card: its key and its styled words.

use vstd::prelude::*;
use crate::cards::{WordKind, WordSpan, WordType, span_views};
use crate::text::{
    append_chars, contains_char, has_char, join, join_chars, push_char, string_of,
    strip_paren_chars, strip_parens, tokens, tokens_of, views,
};

verus! {

/// A token holds varying content when a round bracket opens in it.
pub open spec fn is_varying(t: Seq<char>) -> bool {
    has_char(t, '(')
}

/// A token as it enters a card key: a varying one without its brackets.
pub open spec fn plain_token(t: Seq<char>) -> Seq<char> {
    if is_varying(t) {
        strip_parens(t)
    } else {
        t
    }
}

/// The tokens of a phrasing as they enter its card key.
pub open spec fn plain_tokens(ts: Seq<Seq<char>>) -> Seq<Seq<char>> {
    Seq::new(ts.len(), |i: int| plain_token(ts[i]))
}

/// The key of the card that stands for phrasing `p`: its tokens, varying
/// ones without their brackets, with one space between neighbours.
pub open spec fn card_key(p: Seq<char>) -> Seq<char> {
    join(plain_tokens(tokens(p)), ' ')
}

/// The runs `spans` with token `t` added. A varying token is a run of its
/// own, ending in a space; any other token continues the run before it unless
/// that run is varying, and otherwise opens a run of style `kind`.
pub open spec fn add_token(spans: Seq<WordSpan>, t: Seq<char>, kind: WordKind) -> Seq<WordSpan> {
    if is_varying(t) {
        spans.push(WordSpan { kind: WordKind::Varying, text: strip_parens(t).push(' ') })
    } else if spans.len() > 0 && spans.last().kind != WordKind::Varying {
        spans.update(
            spans.len() - 1,
            WordSpan { kind: spans.last().kind, text: spans.last().text.push(' ') + t },
        )
    } else {
        spans.push(WordSpan { kind, text: t })
    }
}

/// The runs made of the tokens `ts`, with `kind` as the style of the runs
/// that are not varying.
pub open spec fn spans_of(ts: Seq<Seq<char>>, kind: WordKind) -> Seq<WordSpan>
    decreases ts.len(),
{
    if ts.len() == 0 {
        Seq::<WordSpan>::empty()
    } else {
        add_token(spans_of(ts.drop_last(), kind), ts.last(), kind)
    }
}

/// The style of the runs of a card that are not varying: it tells whether the
/// player chose the card before.
pub open spec fn plain_kind(chosen_before: bool) -> WordKind {
    if chosen_before {
        WordKind::PreviouslySelected
    } else {
        WordKind::Regular
    }
}

/// The styled words of the card that stands for phrasing `p`.
pub open spec fn card_words(p: Seq<char>, chosen_before: bool) -> Seq<WordSpan> {
    spans_of(tokens(p), plain_kind(chosen_before))
}

/// A phrasing that starts with `!` belongs to an important pair.
pub open spec fn is_important(p: Seq<char>) -> bool {
    p.len() > 0 && p[0] == '!'
}

/// The phrasing `other` names no card; it marks the option to fall back on.
pub open spec fn is_fallback(p: Seq<char>) -> bool {
    p == seq!['o', 't', 'h', 'e', 'r']
}

/// Whether `p` is the fallback phrasing.
pub fn is_fallback_phrasing(p: &Vec<char>) -> (r: bool)
    ensures
        r == is_fallback(p@),
{
    let r = p.len() == 5 && p[0] == 'o' && p[1] == 't' && p[2] == 'h' && p[3] == 'e' && p[4] == 'r';
    proof {
        if r {
            assert(p@ =~= seq!['o', 't', 'h', 'e', 'r']);
        }
    }
    r
}

/// Whether `p` belongs to an important pair.
pub fn is_important_phrasing(p: &Vec<char>) -> (r: bool)
    ensures
        r == is_important(p@),
{
    p.len() > 0 && p[0] == '!'
}

/// The card key made of the tokens of a phrasing.
pub fn key_of_tokens(toks: &Vec<Vec<char>>) -> (key: Vec<char>)
    ensures
        key@ == join(plain_tokens(views(toks@)), ' '),
{
    let mut plain: Vec<Vec<char>> = Vec::new();
    let mut i: usize = 0;
    while i < toks.len()
        invariant
            i <= toks.len(),
            views(plain@) == plain_tokens(views(toks@)).take(i as int),
        decreases toks.len() - i,
    {
        let ghost before = views(plain@);
        let token = if contains_char(&toks[i], '(') {
            strip_paren_chars(&toks[i])
        } else {
            toks[i].clone()
        };
        plain.push(token);
        assert(views(plain@) =~= before.push(token@));
        i += 1;
        assert(views(plain@) =~= plain_tokens(views(toks@)).take(i as int));
    }
    assert(plain_tokens(views(toks@)).take(toks.len() as int) =~= plain_tokens(views(toks@)));
    join_chars(&plain, ' ')
}

/// The styled words made of the tokens of a phrasing.
pub fn words_of_tokens(toks: &Vec<Vec<char>>, chosen_before: bool) -> (words: Vec<WordType>)
    ensures
        span_views(words@) == spans_of(views(toks@), plain_kind(chosen_before)),
{
    let kind = if chosen_before {
        WordKind::PreviouslySelected
    } else {
        WordKind::Regular
    };
    let mut words: Vec<WordType> = Vec::new();
    let mut i: usize = 0;
    assert(views(toks@).take(0) =~= Seq::<Seq<char>>::empty());
    assert(span_views(words@) =~= Seq::<WordSpan>::empty());
    while i < toks.len()
        invariant
            i <= toks.len(),
            kind == plain_kind(chosen_before),
            span_views(words@) == spans_of(views(toks@).take(i as int), kind),
        decreases toks.len() - i,
    {
        let ghost before = span_views(words@);
        assert(views(toks@).take(i + 1).drop_last() =~= views(toks@).take(i as int));
        assert(views(toks@).take(i + 1).last() == toks[i as int]@);
        if contains_char(&toks[i], '(') {
            let mut text = string_of(&strip_paren_chars(&toks[i]));
            push_char(&mut text, ' ');
            let word = WordType::Varying(text);
            words.push(word);
            assert(span_views(words@) =~= before.push(word@));
        } else if words.len() > 0 && !is_varying_word(&words[words.len() - 1]) {
            let last = words.pop().unwrap();
            let ghost stem = span_views(words@);
            assert(stem =~= before.drop_last());
            assert(last@ == before.last());
            let mut text = last.text().clone();
            push_char(&mut text, ' ');
            append_chars(&mut text, &toks[i]);
            let word = WordType::make(last.kind(), text);
            words.push(word);
            assert(span_views(words@) =~= before.update(before.len() - 1, word@));
        } else {
            let word = WordType::make(kind, string_of(&toks[i]));
            words.push(word);
            assert(span_views(words@) =~= before.push(word@));
        }
        i += 1;
    }
    assert(views(toks@).take(toks.len() as int) =~= views(toks@));
    words
}

/// Whether a run is varying.
pub fn is_varying_word(word: &WordType) -> (r: bool)
    ensures
        r == (word@.kind == WordKind::Varying),
{
    match word {
        WordType::Varying(_) => true,
        _ => false,
    }
}

/// The key and the styled words of the card that stands for phrasing `p`.
pub fn card_of_phrasing(p: &Vec<char>, chosen_before: bool) -> (card: (String, Vec<WordType>))
    ensures
        card.0@ == card_key(p@),
        span_views(card.1@) == card_words(p@, chosen_before),
{
    let toks = tokens_of(p);
    let key = string_of(&key_of_tokens(&toks));
    let words = words_of_tokens(&toks, chosen_before);
    (key, words)
}

/// The key of the card that stands for phrasing `p`.
pub fn key_of_phrasing(p: &Vec<char>) -> (key: String)
    ensures
        key@ == card_key(p@),
{
    let toks = tokens_of(p);
    string_of(&key_of_tokens(&toks))
}

} // verus!
