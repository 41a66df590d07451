//! The option registry: one entry per card key, kept across options events.

use vstd::prelude::*;
use crate::cards::{CardStatus, WordSpan, WordType, copy_words, span_views};

verus! {

/// A registry entry as contracts see it.
pub struct CardView {
    pub status: CardStatus,
    pub words: Seq<WordSpan>,
}

/// The registry of option cards. It maps a card key to the card's status and
/// styled words, and remembers the order in which the keys came in.
pub struct OptionRegistry {
    keys: Vec<String>,
    statuses: Vec<CardStatus>,
    words: Vec<Vec<WordType>>,
}

spec fn key_at(keys: Seq<String>, i: int, k: Seq<char>) -> bool {
    0 <= i < keys.len() && keys[i]@ == k
}

spec fn distinct(keys: Seq<String>) -> bool {
    forall|i: int, j: int| 0 <= i < j < keys.len() ==> keys[i]@ != keys[j]@
}

spec fn slot(keys: Seq<String>, k: Seq<char>) -> int {
    choose|i: int| key_at(keys, i, k)
}

proof fn lemma_slot(keys: Seq<String>, i: int)
    requires
        distinct(keys),
        0 <= i < keys.len(),
    ensures
        slot(keys, keys[i]@) == i,
{
    assert(key_at(keys, i, keys[i]@));
    let j = slot(keys, keys[i]@);
    assert(key_at(keys, j, keys[i]@));
    if j < i {
        assert(keys[j]@ != keys[i]@);
    } else if i < j {
        assert(keys[i]@ != keys[j]@);
    }
}

/// The registry that a change to the status of every entry leaves: `cleared`
/// for each.
pub open spec fn cleared_registry(reg: Map<Seq<char>, CardView>) -> Map<Seq<char>, CardView> {
    Map::new(
        |k: Seq<char>| reg.contains_key(k),
        |k: Seq<char>| CardView { status: reg[k].status.cleared(), words: reg[k].words },
    )
}

/// The registry with every entry used up.
pub open spec fn discarded_registry(reg: Map<Seq<char>, CardView>) -> Map<Seq<char>, CardView> {
    Map::new(
        |k: Seq<char>| reg.contains_key(k),
        |k: Seq<char>| CardView { status: CardStatus::Played, words: reg[k].words },
    )
}

/// The entry that stands under `key` once an options event has offered the
/// card as option `index` with the given words. A used-up entry stays as it
/// is; another one takes the words and the index; a missing one is made.
pub open spec fn offered_card(
    reg: Map<Seq<char>, CardView>,
    key: Seq<char>,
    words: Seq<WordSpan>,
    index: usize,
) -> CardView {
    if !reg.contains_key(key) {
        CardView { status: CardStatus::New(Some(index)), words }
    } else if reg[key].status.is_played() {
        reg[key]
    } else {
        CardView { status: reg[key].status.assigned(index), words }
    }
}

/// The registry once an options event has offered the card under `key`.
pub open spec fn offered_registry(
    reg: Map<Seq<char>, CardView>,
    key: Seq<char>,
    words: Seq<WordSpan>,
    index: usize,
) -> Map<Seq<char>, CardView> {
    reg.insert(key, offered_card(reg, key, words, index))
}

/// The registry with the status of the entry under `key` replaced, where
/// there is such an entry.
pub open spec fn with_status(
    reg: Map<Seq<char>, CardView>,
    key: Seq<char>,
    status: CardStatus,
) -> Map<Seq<char>, CardView> {
    if reg.contains_key(key) {
        reg.insert(key, CardView { status, words: reg[key].words })
    } else {
        reg
    }
}

/// The handles of the shown cards among `order`, in that order.
pub open spec fn shown_handles(order: Seq<Seq<char>>, reg: Map<Seq<char>, CardView>) -> Seq<u64>
    decreases order.len(),
{
    if order.len() == 0 {
        Seq::<u64>::empty()
    } else {
        let before = shown_handles(order.drop_last(), reg);
        match reg[order.last()].status {
            CardStatus::Card(handle, _) => before.push(handle),
            _ => before,
        }
    }
}

/// The keys among `order` whose cards have no visual object yet, in that
/// order.
pub open spec fn new_keys(order: Seq<Seq<char>>, reg: Map<Seq<char>, CardView>) -> Seq<Seq<char>>
    decreases order.len(),
{
    if order.len() == 0 {
        Seq::<Seq<char>>::empty()
    } else {
        let before = new_keys(order.drop_last(), reg);
        match reg[order.last()].status {
            CardStatus::New(_) => before.push(order.last()),
            _ => before,
        }
    }
}

/// The texts of a vector of strings.
pub open spec fn texts(strings: Seq<String>) -> Seq<Seq<char>> {
    Seq::new(strings.len(), |i: int| strings[i]@)
}

impl View for OptionRegistry {
    type V = Map<Seq<char>, CardView>;

    closed spec fn view(&self) -> Map<Seq<char>, CardView> {
        Map::new(
            |k: Seq<char>| exists|i: int| key_at(self.keys@, i, k),
            |k: Seq<char>|
                CardView {
                    status: self.statuses@[slot(self.keys@, k)],
                    words: span_views(self.words@[slot(self.keys@, k)]@),
                },
        )
    }
}

impl OptionRegistry {
    /// The invariant of the registry: no key stands in it twice.
    pub closed spec fn wf(&self) -> bool {
        &&& self.keys@.len() == self.statuses@.len()
        &&& self.keys@.len() == self.words@.len()
        &&& distinct(self.keys@)
    }

    /// The keys in the order in which they came in.
    pub closed spec fn order(&self) -> Seq<Seq<char>> {
        texts(self.keys@)
    }

    spec fn entry(&self, i: int) -> CardView {
        CardView { status: self.statuses@[i], words: span_views(self.words@[i]@) }
    }

    proof fn lemma_entries(&self)
        requires
            self.wf(),
        ensures
            forall|i: int|
                0 <= i < self.keys@.len() ==> self@.contains_key(#[trigger] self.keys@[i]@)
                    && self@[self.keys@[i]@] == self.entry(i),
            forall|k: Seq<char>|
                self@.contains_key(k) ==> key_at(self.keys@, slot(self.keys@, k), k) && self@[k]
                    == self.entry(slot(self.keys@, k)),
    {
        assert forall|i: int| 0 <= i < self.keys@.len() implies self@.contains_key(
            #[trigger] self.keys@[i]@,
        ) && self@[self.keys@[i]@] == self.entry(i) by {
            lemma_slot(self.keys@, i);
            assert(key_at(self.keys@, i, self.keys@[i]@));
        }
    }

    /// The order holds each key of the registry, and each once.
    pub proof fn order_holds_the_keys(&self)
        requires
            self.wf(),
        ensures
            self.order().no_duplicates(),
            forall|k: Seq<char>| self@.contains_key(k) <==> self.order().contains(k),
    {
        self.lemma_entries();
        assert forall|k: Seq<char>| self@.contains_key(k) <==> self.order().contains(k) by {
            if self@.contains_key(k) {
                let i = slot(self.keys@, k);
                assert(self.order()[i] == k);
            }
            if self.order().contains(k) {
                let i = choose|i: int| 0 <= i < self.order().len() && self.order()[i] == k;
                assert(key_at(self.keys@, i, k));
            }
        }
    }

    /// An empty registry.
    pub fn new() -> (r: OptionRegistry)
        ensures
            r.wf(),
            r@ == Map::<Seq<char>, CardView>::empty(),
            r.order() == Seq::<Seq<char>>::empty(),
    {
        let r = OptionRegistry { keys: Vec::new(), statuses: Vec::new(), words: Vec::new() };
        assert(r@ =~= Map::<Seq<char>, CardView>::empty());
        assert(r.order() =~= Seq::<Seq<char>>::empty());
        r
    }

    /// The number of entries.
    pub fn len(&self) -> (n: usize)
        requires
            self.wf(),
        ensures
            n == self.order().len(),
    {
        self.keys.len()
    }

    fn find(&self, key: &str) -> (at: Option<usize>)
        requires
            self.wf(),
        ensures
            match at {
                Some(i) => i < self.keys@.len() && self.keys@[i as int]@ == key@,
                None => !self@.contains_key(key@),
            },
    {
        let wanted = key.to_owned();
        let mut i: usize = 0;
        while i < self.keys.len()
            invariant
                i <= self.keys@.len(),
                wanted@ == key@,
                forall|j: int| 0 <= j < i ==> self.keys@[j]@ != key@,
            decreases self.keys.len() - i,
        {
            if self.keys[i] == wanted {
                return Some(i);
            }
            i += 1;
        }
        None
    }

    /// The status of the card under `key`, if there is one.
    pub fn status(&self, key: &str) -> (r: Option<CardStatus>)
        requires
            self.wf(),
        ensures
            r == if self@.contains_key(key@) {
                Some(self@[key@].status)
            } else {
                None
            },
    {
        proof {
            self.lemma_entries();
        }
        match self.find(key) {
            Some(i) => Some(self.statuses[i]),
            None => None,
        }
    }

    /// Whether a card stands under `key`.
    pub fn contains(&self, key: &str) -> (r: bool)
        requires
            self.wf(),
        ensures
            r == self@.contains_key(key@),
    {
        proof {
            self.lemma_entries();
        }
        self.find(key).is_some()
    }

    /// The styled words of the card under `key`, if there is one.
    pub fn words(&self, key: &str) -> (r: Option<Vec<WordType>>)
        requires
            self.wf(),
        ensures
            (r is Some) == self@.contains_key(key@),
            r is Some ==> span_views(r->0@) == self@[key@].words,
    {
        proof {
            self.lemma_entries();
        }
        match self.find(key) {
            Some(i) => Some(copy_words(&self.words[i])),
            None => None,
        }
    }

    fn set_status(&mut self, i: usize, status: CardStatus)
        requires
            old(self).wf(),
            i < old(self).keys@.len(),
        ensures
            final(self).wf(),
            final(self).keys == old(self).keys,
            final(self).words == old(self).words,
            final(self).statuses@ == old(self).statuses@.update(i as int, status),
            final(self)@ == with_status(old(self)@, old(self).keys@[i as int]@, status),
    {
        proof {
            self.lemma_entries();
        }
        self.statuses.set(i, status);
        proof {
            self.lemma_entries();
            let key = self.keys@[i as int]@;
            let want = with_status(old(self)@, key, status);
            assert forall|k: Seq<char>| self@.contains_key(k) implies #[trigger] self@[k]
                == want[k] by {
                let j = slot(self.keys@, k);
                assert(self@[k] == self.entry(j));
                assert(old(self)@[k] == old(self).entry(j));
            }
            assert(self@ =~= want);
        }
    }

    /// Starts an options event: every shown card forgets its option index.
    pub fn clear_indices(&mut self)
        requires
            old(self).wf(),
        ensures
            final(self).wf(),
            final(self).order() == old(self).order(),
            final(self)@ == cleared_registry(old(self)@),
    {
        let mut i: usize = 0;
        while i < self.statuses.len()
            invariant
                self.wf(),
                i <= self.statuses@.len(),
                self.keys == old(self).keys,
                self.words == old(self).words,
                self.statuses@.len() == old(self).statuses@.len(),
                forall|j: int| 0 <= j < i ==> self.statuses@[j] == old(self).statuses@[j].cleared(),
                forall|j: int|
                    i <= j < self.statuses@.len() ==> self.statuses@[j] == old(self).statuses@[j],
            decreases self.statuses.len() - i,
        {
            let status = self.statuses[i].clear();
            self.set_status(i, status);
            i += 1;
        }
        proof {
            self.lemma_entries();
            old(self).lemma_entries();
            let want = cleared_registry(old(self)@);
            assert forall|k: Seq<char>| self@.contains_key(k) implies #[trigger] self@[k]
                == want[k] by {
                let j = slot(self.keys@, k);
                assert(self@[k] == self.entry(j));
                assert(old(self)@[k] == old(self).entry(j));
            }
            assert(self@ =~= want);
        }
    }

    /// Uses up every card, and returns the handles of those that were shown.
    pub fn discard(&mut self) -> (removed: Vec<u64>)
        requires
            old(self).wf(),
        ensures
            final(self).wf(),
            final(self).order() == old(self).order(),
            final(self)@ == discarded_registry(old(self)@),
            removed@ == shown_handles(old(self).order(), old(self)@),
    {
        let mut removed: Vec<u64> = Vec::new();
        let mut i: usize = 0;
        proof {
            assert(old(self).order().take(0) =~= Seq::<Seq<char>>::empty());
        }
        while i < self.statuses.len()
            invariant
                self.wf(),
                old(self).wf(),
                i <= self.statuses@.len(),
                self.keys == old(self).keys,
                self.words == old(self).words,
                self.statuses@.len() == old(self).statuses@.len(),
                forall|j: int| 0 <= j < i ==> self.statuses@[j] == CardStatus::Played,
                forall|j: int|
                    i <= j < self.statuses@.len() ==> self.statuses@[j] == old(self).statuses@[j],
                removed@ == shown_handles(old(self).order().take(i as int), old(self)@),
            decreases self.statuses.len() - i,
        {
            proof {
                old(self).lemma_entries();
                assert(old(self).order().take(i + 1).drop_last() =~= old(self).order().take(
                    i as int,
                ));
                assert(old(self).order().take(i + 1).last() == old(self).keys@[i as int]@);
                assert(old(self)@[old(self).keys@[i as int]@] == old(self).entry(i as int));
            }
            match self.statuses[i] {
                CardStatus::Card(handle, _) => {
                    removed.push(handle);
                },
                _ => {},
            }
            self.set_status(i, CardStatus::Played);
            i += 1;
        }
        proof {
            assert(old(self).order().take(i as int) =~= old(self).order());
            self.lemma_entries();
            old(self).lemma_entries();
            let want = discarded_registry(old(self)@);
            assert forall|k: Seq<char>| self@.contains_key(k) implies #[trigger] self@[k]
                == want[k] by {
                let j = slot(self.keys@, k);
                assert(self@[k] == self.entry(j));
                assert(old(self)@[k] == old(self).entry(j));
            }
            assert(self@ =~= want);
        }
        removed
    }

    /// Records that an options event offers the card under `key` as option
    /// `index`, with the given words.
    pub fn offer(&mut self, key: String, words: Vec<WordType>, index: usize)
        requires
            old(self).wf(),
        ensures
            final(self).wf(),
            final(self)@ == offered_registry(old(self)@, key@, span_views(words@), index),
            final(self).order() == if old(self)@.contains_key(key@) {
                old(self).order()
            } else {
                old(self).order().push(key@)
            },
    {
        proof {
            self.lemma_entries();
        }
        let ghost want = offered_registry(old(self)@, key@, span_views(words@), index);
        match self.find(key.as_str()) {
            Some(i) => {
                match self.statuses[i] {
                    CardStatus::Played => {
                        assert(self@ =~= want);
                    },
                    status => {
                        self.set_status(i, status.assign(index));
                        self.words.set(i, words);
                        proof {
                            self.lemma_entries();
                            assert forall|k: Seq<char>| self@.contains_key(k) implies #[trigger] self@[k]
                                == want[k] by {
                                let j = slot(self.keys@, k);
                                assert(self@[k] == self.entry(j));
                                assert(old(self)@[k] == old(self).entry(j));
                            }
                            assert(self@ =~= want);
                        }
                    },
                }
            },
            None => {
                self.keys.push(key);
                self.statuses.push(CardStatus::New(Some(index)));
                self.words.push(words);
                proof {
                    assert(distinct(self.keys@)) by {
                        assert forall|i: int, j: int| 0 <= i < j < self.keys@.len() implies self.keys@[i]@
                            != self.keys@[j]@ by {
                            if j == self.keys@.len() - 1 {
                                assert(old(self)@.contains_key(old(self).keys@[i]@));
                            }
                        }
                    }
                    self.lemma_entries();
                    let n = old(self).keys@.len() as int;
                    assert(self.keys@[n]@ == key@);
                    assert forall|k: Seq<char>| #[trigger] want.contains_key(k) implies self@.contains_key(
                        k,
                    ) && self@[k] == want[k] by {
                        if k == key@ {
                            assert(self@[self.keys@[n]@] == self.entry(n));
                        } else {
                            let j = slot(old(self).keys@, k);
                            assert(self.keys@[j]@ == k);
                            assert(self@[self.keys@[j]@] == self.entry(j));
                            assert(old(self)@[k] == old(self).entry(j));
                        }
                    }
                    assert forall|k: Seq<char>| #[trigger] self@.contains_key(k) implies want.contains_key(
                        k,
                    ) by {
                        let j = slot(self.keys@, k);
                        if j < n {
                            assert(old(self)@.contains_key(old(self).keys@[j]@));
                        }
                    }
                    assert(self@ =~= want);
                    assert(self.order() =~= old(self).order().push(key@));
                }
            },
        }
    }

    /// Records that the card under `key` is now shown through the visual
    /// object `handle`. Only a card without a visual object takes one; the
    /// result tells whether this one did.
    pub fn render(&mut self, key: &str, handle: u64) -> (done: bool)
        requires
            old(self).wf(),
        ensures
            final(self).wf(),
            final(self).order() == old(self).order(),
            done == (old(self)@.contains_key(key@) && old(self)@[key@].status is New),
            done ==> final(self)@ == with_status(
                old(self)@,
                key@,
                old(self)@[key@].status.rendered(handle),
            ),
            !done ==> final(self)@ == old(self)@,
    {
        proof {
            self.lemma_entries();
        }
        match self.find(key) {
            Some(i) => {
                let status = self.statuses[i];
                match status {
                    CardStatus::New(_) => {
                        self.set_status(i, status.render(handle));
                        true
                    },
                    _ => false,
                }
            },
            None => false,
        }
    }

    /// Uses up the card under `key` if it is shown, and returns its handle
    /// and option index if so. Any other card stays as it is.
    pub fn play(&mut self, key: &str) -> (was: Option<(u64, Option<usize>)>)
        requires
            old(self).wf(),
        ensures
            final(self).wf(),
            final(self).order() == old(self).order(),
            was == shown_card(old(self)@, key@),
            final(self)@ == played_registry(old(self)@, key@),
    {
        proof {
            self.lemma_entries();
        }
        match self.find(key) {
            Some(i) => {
                match self.statuses[i] {
                    CardStatus::Card(handle, index) => {
                        self.set_status(i, CardStatus::Played);
                        Some((handle, index))
                    },
                    _ => None,
                }
            },
            None => None,
        }
    }

    /// The keys of the cards that have no visual object yet, in the order in
    /// which they came in.
    pub fn new_cards(&self) -> (keys: Vec<String>)
        requires
            self.wf(),
        ensures
            texts(keys@) == new_keys(self.order(), self@),
    {
        let mut keys: Vec<String> = Vec::new();
        let mut i: usize = 0;
        proof {
            assert(self.order().take(0) =~= Seq::<Seq<char>>::empty());
            assert(texts(keys@) =~= Seq::<Seq<char>>::empty());
        }
        while i < self.keys.len()
            invariant
                self.wf(),
                i <= self.keys@.len(),
                texts(keys@) == new_keys(self.order().take(i as int), self@),
            decreases self.keys.len() - i,
        {
            proof {
                self.lemma_entries();
                assert(self.order().take(i + 1).drop_last() =~= self.order().take(i as int));
                assert(self.order().take(i + 1).last() == self.keys@[i as int]@);
                assert(self@[self.keys@[i as int]@] == self.entry(i as int));
            }
            match self.statuses[i] {
                CardStatus::New(_) => {
                    let ghost before = texts(keys@);
                    let key = self.keys[i].clone();
                    keys.push(key);
                    assert(texts(keys@) =~= before.push(key@));
                },
                _ => {},
            }
            i += 1;
        }
        proof {
            assert(self.order().take(i as int) =~= self.order());
        }
        keys
    }

    /// The keys of all cards, in the order in which they came in.
    pub fn keys(&self) -> (keys: Vec<String>)
        requires
            self.wf(),
        ensures
            texts(keys@) == self.order(),
    {
        let mut keys: Vec<String> = Vec::new();
        let mut i: usize = 0;
        while i < self.keys.len()
            invariant
                i <= self.keys@.len(),
                texts(keys@) == self.order().take(i as int),
            decreases self.keys.len() - i,
        {
            let ghost before = texts(keys@);
            let key = self.keys[i].clone();
            keys.push(key);
            assert(texts(keys@) =~= before.push(key@));
            i += 1;
            assert(texts(keys@) =~= self.order().take(i as int));
        }
        proof {
            assert(self.order().take(i as int) =~= self.order());
        }
        keys
    }
}

/// The handle and option index of the card under `key`, if it is shown.
pub open spec fn shown_card(reg: Map<Seq<char>, CardView>, key: Seq<char>) -> Option<
    (u64, Option<usize>),
> {
    if reg.contains_key(key) {
        match reg[key].status {
            CardStatus::Card(handle, index) => Some((handle, index)),
            _ => None,
        }
    } else {
        None
    }
}

/// The registry once the card under `key` is chosen: used up if it was
/// shown, as before otherwise.
pub open spec fn played_registry(reg: Map<Seq<char>, CardView>, key: Seq<char>) -> Map<
    Seq<char>,
    CardView,
> {
    if shown_card(reg, key) is Some {
        with_status(reg, key, CardStatus::Played)
    } else {
        reg
    }
}

} // verus!
