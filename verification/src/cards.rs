//! Option cards: their lifecycle, their styled words, and the registry that
//! keeps one entry per card key.

use vstd::prelude::*;
use vstd::string::*;


verus! {

/// Where a card stands in its life: requested, shown, or used up. The number
/// carried by the first two is the interpreter's option index, once an
/// options event has assigned one.
#[derive(Clone, Copy, Debug, PartialEq, Eq)]
pub enum CardStatus {
    /// Asked for, with no visual object yet.
    New(Option<usize>),
    /// Shown through the visual object with the given handle.
    Card(u64, Option<usize>),
    /// Chosen or discarded; the entry stays and is never revived.
    Played,
}

impl Default for CardStatus {
    fn default() -> (r: CardStatus)
        ensures
            r == CardStatus::New(None),
    {
        CardStatus::New(None)
    }
}

impl CardStatus {
    /// The status once a visual object with `handle` exists for the card.
    pub open spec fn rendered(self, handle: u64) -> CardStatus {
        match self {
            CardStatus::New(index) => CardStatus::Card(handle, index),
            other => other,
        }
    }

    /// The status once an options event offers the card as option `index`.
    pub open spec fn assigned(self, index: usize) -> CardStatus {
        match self {
            CardStatus::New(_) => CardStatus::New(Some(index)),
            CardStatus::Card(handle, _) => CardStatus::Card(handle, Some(index)),
            CardStatus::Played => CardStatus::Played,
        }
    }

    /// The status at the start of an options event: a shown card forgets the
    /// index it had.
    pub open spec fn cleared(self) -> CardStatus {
        match self {
            CardStatus::Card(handle, _) => CardStatus::Card(handle, None),
            other => other,
        }
    }

    /// The status once the card is chosen: a shown card is used up.
    pub open spec fn chosen(self) -> CardStatus {
        match self {
            CardStatus::Card(_, _) => CardStatus::Played,
            other => other,
        }
    }

    /// Whether the card is used up.
    pub open spec fn is_played(self) -> bool {
        self == CardStatus::Played
    }

    /// The option index that the card holds, if it holds one.
    pub open spec fn index(self) -> Option<usize> {
        match self {
            CardStatus::New(index) => index,
            CardStatus::Card(_, index) => index,
            CardStatus::Played => None,
        }
    }

    /// The option index handed to the interpreter when the card is chosen:
    /// the assigned index, or `fallback` where none was assigned.
    pub open spec fn resolved(self, fallback: usize) -> Option<usize> {
        match self {
            CardStatus::Card(_, Some(index)) => Some(index),
            CardStatus::Card(_, None) => Some(fallback),
            _ => None,
        }
    }

    /// Applies `rendered`.
    pub fn render(self, handle: u64) -> (r: CardStatus)
        ensures
            r == self.rendered(handle),
    {
        match self {
            CardStatus::New(index) => CardStatus::Card(handle, index),
            other => other,
        }
    }

    /// Applies `assigned`.
    pub fn assign(self, index: usize) -> (r: CardStatus)
        ensures
            r == self.assigned(index),
    {
        match self {
            CardStatus::New(_) => CardStatus::New(Some(index)),
            CardStatus::Card(handle, _) => CardStatus::Card(handle, Some(index)),
            CardStatus::Played => CardStatus::Played,
        }
    }

    /// Applies `cleared`.
    pub fn clear(self) -> (r: CardStatus)
        ensures
            r == self.cleared(),
    {
        match self {
            CardStatus::Card(handle, _) => CardStatus::Card(handle, None),
            other => other,
        }
    }

    /// Applies `resolved`.
    pub fn resolve(self, fallback: usize) -> (r: Option<usize>)
        ensures
            r == self.resolved(fallback),
    {
        match self {
            CardStatus::Card(_, Some(index)) => Some(index),
            CardStatus::Card(_, None) => Some(fallback),
            _ => None,
        }
    }
}

/// The style of a run of words on a card.
#[derive(Clone, Copy, Debug, PartialEq, Eq)]
pub enum WordKind {
    Regular,
    Varying,
    PreviouslySelected,
}

/// A styled run of words, as contracts see it.
pub struct WordSpan {
    pub kind: WordKind,
    pub text: Seq<char>,
}

/// A styled run of words on a card.
#[derive(Clone, Debug, PartialEq, Eq)]
pub enum WordType {
    /// Plain text.
    Regular(String),
    /// Text drawn from a script variable.
    Varying(String),
    /// Text of a card that the player chose before for the same question.
    PreviouslySelected(String),
}

impl View for WordType {
    type V = WordSpan;

    open spec fn view(&self) -> WordSpan {
        match self {
            WordType::Regular(s) => WordSpan { kind: WordKind::Regular, text: s@ },
            WordType::Varying(s) => WordSpan { kind: WordKind::Varying, text: s@ },
            WordType::PreviouslySelected(s) => WordSpan {
                kind: WordKind::PreviouslySelected,
                text: s@,
            },
        }
    }
}

impl Default for WordType {
    fn default() -> (r: WordType)
        ensures
            r@ == (WordSpan { kind: WordKind::Regular, text: Seq::<char>::empty() }),
    {
        WordType::Regular(String::new())
    }
}

impl WordType {
    /// A run of the given kind and text.
    pub fn make(kind: WordKind, text: String) -> (r: WordType)
        ensures
            r@ == (WordSpan { kind, text: text@ }),
    {
        match kind {
            WordKind::Regular => WordType::Regular(text),
            WordKind::Varying => WordType::Varying(text),
            WordKind::PreviouslySelected => WordType::PreviouslySelected(text),
        }
    }

    /// The kind of the run.
    pub fn kind(&self) -> (r: WordKind)
        ensures
            r == self@.kind,
    {
        match self {
            WordType::Regular(_) => WordKind::Regular,
            WordType::Varying(_) => WordKind::Varying,
            WordType::PreviouslySelected(_) => WordKind::PreviouslySelected,
        }
    }

    /// The text of the run.
    pub fn text(&self) -> (r: &String)
        ensures
            r@ == self@.text,
    {
        match self {
            WordType::Regular(s) => s,
            WordType::Varying(s) => s,
            WordType::PreviouslySelected(s) => s,
        }
    }

    /// A copy of the run.
    pub fn copy(&self) -> (r: WordType)
        ensures
            r@ == self@,
    {
        WordType::make(self.kind(), self.text().clone())
    }

    /// The run written as its style's name followed by its text in round
    /// brackets.
    pub fn describe(&self) -> (r: String)
        ensures
            r@ == kind_name(self@.kind) + seq!['('] + self@.text + seq![')'],
    {
        let mut out = match self {
            WordType::Regular(_) => String::from_str("Regular"),
            WordType::Varying(_) => String::from_str("Varying"),
            WordType::PreviouslySelected(_) => String::from_str("PreviouslySelected"),
        };
        out.append("(");
        out.append(self.text().as_str());
        out.append(")");
        proof {
            reveal_strlit("(");
            reveal_strlit(")");
            assert("("@ =~= seq!['(']);
            assert(")"@ =~= seq![')']);
        }
        out
    }
}

/// The name of a style.
pub open spec fn kind_name(kind: WordKind) -> Seq<char> {
    match kind {
        WordKind::Regular => "Regular"@,
        WordKind::Varying => "Varying"@,
        WordKind::PreviouslySelected => "PreviouslySelected"@,
    }
}

/// The runs of a vector of words, as contracts see them.
pub open spec fn span_views(words: Seq<WordType>) -> Seq<WordSpan> {
    Seq::new(words.len(), |i: int| words[i]@)
}

/// A copy of a vector of words.
pub fn copy_words(words: &Vec<WordType>) -> (out: Vec<WordType>)
    ensures
        span_views(out@) == span_views(words@),
{
    let mut out: Vec<WordType> = Vec::new();
    let mut i: usize = 0;
    while i < words.len()
        invariant
            i <= words.len(),
            span_views(out@) == span_views(words@).take(i as int),
        decreases words.len() - i,
    {
        let ghost before = span_views(out@);
        let word = words[i].copy();
        out.push(word);
        assert(span_views(out@) =~= before.push(word@));
        i += 1;
        assert(span_views(out@) =~= span_views(words@).take(i as int));
    }
    assert(span_views(words@).take(words.len() as int) =~= span_views(words@));
    out
}

} // verus!
