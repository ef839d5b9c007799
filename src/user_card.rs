//! The plaintext card mapping: a one-to-one assignment of plaintext card
//! values to classic playing cards.
use vstd::prelude::*;
use crate::config::MAX_CARDS;
use crate::values::{bytes_equal, Card};

verus! {

/// Number of suits of a classic deck.
pub const SUITS: u8 = 4;

/// A classic playing card: `value` 0 is the two, 12 the ace; `suite` is one of
/// clubs, diamonds, hearts, spades, in that order.
#[derive(Clone, Copy, Debug, PartialEq, Eq, Structural)]
pub struct ClassicPlayingCard {
    pub value: u8,
    pub suite: u8,
}

/// The classic card at position `i` of a fresh deck, values first.
pub open spec fn classic_card(i: int) -> ClassicPlayingCard {
    ClassicPlayingCard { value: (i / SUITS as int) as u8, suite: (i % SUITS as int) as u8 }
}

/// Views of mapping entries.
pub open spec fn entries_view(e: Seq<(Card, ClassicPlayingCard)>) -> Seq<(Seq<u8>, ClassicPlayingCard)> {
    e.map_values(|p: (Card, ClassicPlayingCard)| (p.0@, p.1))
}

/// No plaintext value occurs twice.
pub open spec fn keys_distinct(m: Seq<(Seq<u8>, ClassicPlayingCard)>) -> bool {
    forall|i: int, j: int| 0 <= i < j < m.len() ==> m[i].0 != m[j].0
}

/// No two of the cards have the same encoding.
pub open spec fn cards_distinct(c: Seq<Card>) -> bool {
    forall|i: int, j: int| 0 <= i < j < c.len() ==> c[i]@ != c[j]@
}

/// The classic card that `m` assigns to `k`, if any.
pub open spec fn lookup(m: Seq<(Seq<u8>, ClassicPlayingCard)>, k: Seq<u8>) -> Option<ClassicPlayingCard> {
    if exists|i: int| 0 <= i < m.len() && m[i].0 == k {
        let i = choose|i: int| 0 <= i < m.len() && m[i].0 == k;
        Some(m[i].1)
    } else {
        None
    }
}

/// The mapping that assigns the `i`-th plaintext to the `i`-th classic card.
pub open spec fn encoding_of(p: Seq<Card>) -> Seq<(Seq<u8>, ClassicPlayingCard)> {
    Seq::new(p.len(), |i: int| (p[i]@, classic_card(i)))
}

/// A bijection between plaintext card values and classic playing cards.
#[derive(Clone, Debug)]
pub struct CardMapping {
    entries: Vec<(Card, ClassicPlayingCard)>,
}

impl View for CardMapping {
    type V = Seq<(Seq<u8>, ClassicPlayingCard)>;

    closed spec fn view(&self) -> Seq<(Seq<u8>, ClassicPlayingCard)> {
        entries_view(self.entries@)
    }
}

impl CardMapping {
    /// Plaintext values are distinct and so are the classic cards.
    pub open spec fn wf(&self) -> bool {
        &&& keys_distinct(self@)
        &&& forall|i: int, j: int| 0 <= i < j < self@.len() ==> self@[i].1 != self@[j].1
    }

    pub fn len(&self) -> (r: usize)
        ensures
            r == self@.len(),
    {
        self.entries.len()
    }

    pub fn copy(&self) -> (r: Self)
        ensures
            r@ == self@,
    {
        let mut entries: Vec<(Card, ClassicPlayingCard)> = Vec::with_capacity(self.entries.len());
        let mut i: usize = 0;
        while i < self.entries.len()
            invariant
                0 <= i <= self.entries@.len(),
                entries@.len() == i,
                forall|k: int| 0 <= k < i ==> (#[trigger] entries@[k]).0@ == self.entries@[k].0@
                    && entries@[k].1 == self.entries@[k].1,
            decreases self.entries@.len() - i,
        {
            entries.push((self.entries[i].0.copy(), self.entries[i].1));
            i = i + 1;
        }
        let r = CardMapping { entries };
        assert(r@ =~= self@);
        r
    }

    /// The plaintext values, in the order of the classic cards they stand for.
    pub fn plaintexts(&self) -> (r: Vec<Card>)
        ensures
            r@.len() == self@.len(),
            forall|k: int| 0 <= k < r@.len() ==> (#[trigger] r@[k])@ == self@[k].0,
    {
        let mut r: Vec<Card> = Vec::with_capacity(self.entries.len());
        let mut i: usize = 0;
        while i < self.entries.len()
            invariant
                0 <= i <= self.entries@.len(),
                self@ == entries_view(self.entries@),
                r@.len() == i,
                forall|k: int| 0 <= k < i ==> (#[trigger] r@[k])@ == self@[k].0,
            decreases self.entries@.len() - i,
        {
            r.push(self.entries[i].0.copy());
            i = i + 1;
        }
        r
    }

    /// The mapping that assigns `plaintexts[i]` to the `i`-th classic card,
    /// if the plaintexts are distinct.
    pub fn from_plaintexts(plaintexts: &Vec<Card>) -> (r: Option<CardMapping>)
        requires
            plaintexts@.len() <= MAX_CARDS,
        ensures
            r is Some <==> cards_distinct(plaintexts@),
            r matches Some(m) ==> m.wf() && m@ == encoding_of(plaintexts@),
    {
        if all_distinct(plaintexts) {
            Some(encode_cards(plaintexts))
        } else {
            None
        }
    }

    /// The plaintext value and classic card of entry `i`.
    pub fn entry(&self, i: usize) -> (r: (Card, ClassicPlayingCard))
        requires
            i < self@.len(),
        ensures
            r.0@ == self@[i as int].0,
            r.1 == self@[i as int].1,
    {
        (self.entries[i].0.copy(), self.entries[i].1)
    }

    /// The classic card assigned to `card`.
    pub fn get(&self, card: &Card) -> (r: Option<ClassicPlayingCard>)
        requires
            self.wf(),
        ensures
            r == lookup(self@, card@),
    {
        let mut i: usize = 0;
        while i < self.entries.len()
            invariant
                0 <= i <= self@.len(),
                self.wf(),
                self@.len() == self.entries@.len(),
                self@ == entries_view(self.entries@),
                forall|k: int| 0 <= k < i ==> self@[k].0 != card@,
            decreases self.entries@.len() - i,
        {
            if bytes_equal(&self.entries[i].0.0, &card.0) {
                proof {
                    assert(self@[i as int].0 == card@);
                    let w = choose|w: int| 0 <= w < self@.len() && self@[w].0 == card@;
                    if w > i as int {
                        assert(self@[i as int].0 != self@[w].0);
                    }
                }
                return Some(self.entries[i].1);
            }
            i = i + 1;
        }
        None
    }
}

/// Whether no two of `cards` have the same encoding.
pub fn all_distinct(cards: &Vec<Card>) -> (r: bool)
    ensures
        r == cards_distinct(cards@),
{
    let mut j: usize = 1;
    while j < cards.len()
        invariant
            1 <= j,
            j <= cards@.len() || cards@.len() == 0,
            forall|a: int, b: int| 0 <= a < b < j && b < cards@.len() ==> cards@[a]@ != cards@[b]@,
        decreases cards@.len() - j,
    {
        let mut i: usize = 0;
        while i < j
            invariant
                0 <= i <= j < cards@.len(),
                forall|a: int, b: int| 0 <= a < b < j ==> cards@[a]@ != cards@[b]@,
                forall|a: int| 0 <= a < i ==> cards@[a]@ != cards@[j as int]@,
            decreases j - i,
        {
            if bytes_equal(&cards[i].0, &cards[j].0) {
                return false;
            }
            i = i + 1;
        }
        j = j + 1;
    }
    true
}

/// Assigns `plaintexts[i]` to the `i`-th classic card (values first, then
/// suits), for every `i`.
pub fn encode_cards(plaintexts: &Vec<Card>) -> (r: CardMapping)
    requires
        plaintexts@.len() <= MAX_CARDS,
    ensures
        r@ == encoding_of(plaintexts@),
        cards_distinct(plaintexts@) ==> r.wf(),
{
    let mut entries: Vec<(Card, ClassicPlayingCard)> = Vec::with_capacity(plaintexts.len());
    let mut i: usize = 0;
    while i < plaintexts.len()
        invariant
            0 <= i <= plaintexts@.len() <= MAX_CARDS,
            entries@.len() == i,
            forall|k: int| 0 <= k < i ==> #[trigger] entries@[k].0@ == plaintexts@[k]@ && entries@[k].1 == classic_card(k),
        decreases plaintexts@.len() - i,
    {
        let c = ClassicPlayingCard { value: (i / 4) as u8, suite: (i % 4) as u8 };
        entries.push((plaintexts[i].copy(), c));
        i = i + 1;
    }
    let r = CardMapping { entries };
    assert(r@ =~= encoding_of(plaintexts@));
    proof {
        assert forall|a: int, b: int| 0 <= a < b < r@.len() implies r@[a].1 != r@[b].1 by {
            lemma_classic_cards_differ(a, b);
        }
    }
    r
}

/// Distinct positions of a fresh deck hold distinct classic cards.
pub proof fn lemma_classic_cards_differ(a: int, b: int)
    requires
        0 <= a < b < MAX_CARDS,
    ensures
        classic_card(a) != classic_card(b),
{
    assert(a / 4 != b / 4 || a % 4 != b % 4) by (nonlinear_arith)
        requires 0 <= a < b;
    assert(0 <= a / 4 < 13 && 0 <= b / 4 < 13);
}

/// Looking up the `i`-th plaintext in the mapping built from distinct
/// plaintexts yields exactly the `i`-th classic card.
pub proof fn lemma_lookup_recovers_plaintext(p: Seq<Card>, i: int)
    requires
        cards_distinct(p),
        0 <= i < p.len(),
    ensures
        lookup(encoding_of(p), p[i]@) == Some(classic_card(i)),
{
    let m = encoding_of(p);
    assert(m[i].0 == p[i]@);
    let w = choose|w: int| 0 <= w < m.len() && m[w].0 == p[i]@;
    if w < i {
        assert(p[w]@ != p[i]@);
    } else if w > i {
        assert(p[i]@ != p[w]@);
    }
}

} // verus!
