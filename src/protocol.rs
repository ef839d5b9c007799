//! The messages between players and the coordinator, and the decisions each
//! side takes on them. The cryptographic work a message calls for is done by
//! the caller; the functions here decide what is recorded and what is sent.
use vstd::prelude::*;
use crate::config::{ZkGameConfig, MAX_CARDS};
use crate::error::GameErrors;
use crate::player::Surrogate;
use crate::server::{deck_view, roster_has, unshuffled, RevealedToken, ZkCardGame, GameView, released, shares_of};
use crate::user_card::{classic_card, cards_distinct, encoding_of, CardMapping, ClassicPlayingCard};
use crate::values::{
    AggregatePublicKey, Card, MaskedCard, ProofRemasking, ProofReveal, ProofShuffle, RevealToken,
};

verus! {

/// Messages from a player (or the driver) to the coordinator.
#[derive(Clone, Debug)]
pub enum C2SOp {
    CreateInstance(ZkGameConfig),
    CheckIn(u32, Surrogate),
    CheckOut(u32),
    /// The deck before and after the sender's shuffle, with its proof.
    ShuffledCards(Vec<MaskedCard>, Vec<MaskedCard>, ProofShuffle),
    /// Player, first card wanted, number of cards wanted.
    RequestCards(u32, Option<u32>, u32),
    /// Owner and index of a card whose shares the owner asks for.
    PeekCard(u32, u32),
    /// Card index, token, proof and contributing player.
    RevealingCard(u32, RevealToken, ProofReveal, u32),
    /// The owner's own share of a card it opened.
    OpenCard(u32, RevealToken, ProofReveal, u32),
}

#[derive(Clone, Debug)]
pub enum ProofOrPk {
    ProofOne(ProofRemasking),
    ProofTwo(ProofShuffle),
    JointPk(AggregatePublicKey),
}

#[derive(Clone, Debug)]
pub enum InitialOrMaskedCard {
    InitialCard(Card, ClassicPlayingCard),
    MaskedCard(MaskedCard),
}

/// Messages from the coordinator to the players.
#[derive(Clone, Debug)]
pub enum S2COp {
    GameParam(Vec<u8>),
    /// The next shuffler (none once every player has shuffled), the deck
    /// before the last step (or the card mapping, with the first deck), the
    /// current deck, and the last step's proof (or the joint key).
    NextShuffle(Option<u32>, Vec<InitialOrMaskedCard>, Vec<MaskedCard>, ProofOrPk),
    /// Owner and index of the card dealt; none once the deck is exhausted.
    ReceiveCard(Option<(u32, u32)>),
    RevealedCard(u32, Vec<RevealedToken>),
    OpenedCard(RevealToken),
}

/// `entries` wrap the cards of `deck`, one for one.
pub open spec fn wraps_deck(entries: Seq<InitialOrMaskedCard>, deck: Seq<Seq<u8>>) -> bool {
    &&& entries.len() == deck.len()
    &&& forall|k: int| 0 <= k < entries.len() ==> match #[trigger] entries[k] {
        InitialOrMaskedCard::MaskedCard(c) => c@ == deck[k],
        InitialOrMaskedCard::InitialCard(..) => false,
    }
}

/// `entries` list the mapping's plaintexts with their classic cards.
pub open spec fn wraps_mapping(entries: Seq<InitialOrMaskedCard>, m: Seq<(Seq<u8>, ClassicPlayingCard)>) -> bool {
    &&& entries.len() == m.len()
    &&& forall|k: int| 0 <= k < entries.len() ==> match #[trigger] entries[k] {
        InitialOrMaskedCard::InitialCard(c, v) => c@ == m[k].0 && v == m[k].1,
        InitialOrMaskedCard::MaskedCard(_) => false,
    }
}

fn wrap_deck(deck: &Vec<MaskedCard>) -> (r: Vec<InitialOrMaskedCard>)
    ensures
        wraps_deck(r@, deck_view(deck@)),
{
    let mut r: Vec<InitialOrMaskedCard> = Vec::with_capacity(deck.len());
    let mut i: usize = 0;
    while i < deck.len()
        invariant
            0 <= i <= deck@.len(),
            r@.len() == i,
            forall|k: int| 0 <= k < i ==> match #[trigger] r@[k] {
                InitialOrMaskedCard::MaskedCard(c) => c@ == deck@[k]@,
                InitialOrMaskedCard::InitialCard(..) => false,
            },
        decreases deck@.len() - i,
    {
        r.push(InitialOrMaskedCard::MaskedCard(deck[i].copy()));
        i = i + 1;
    }
    r
}

fn wrap_mapping(m: &CardMapping) -> (r: Vec<InitialOrMaskedCard>)
    ensures
        wraps_mapping(r@, m@),
{
    let mut r: Vec<InitialOrMaskedCard> = Vec::with_capacity(m.len());
    let mut i: usize = 0;
    while i < m.len()
        invariant
            0 <= i <= m@.len(),
            r@.len() == i,
            forall|k: int| 0 <= k < i ==> match #[trigger] r@[k] {
                InitialOrMaskedCard::InitialCard(c, v) => c@ == m@[k].0 && v == m@[k].1,
                InitialOrMaskedCard::MaskedCard(_) => false,
            },
        decreases m@.len() - i,
    {
        let (c, v) = m.entry(i);
        r.push(InitialOrMaskedCard::InitialCard(c, v));
        i = i + 1;
    }
    r
}

/// The masked cards of a NextShuffle message's previous deck; fails
/// `InvalidState` if an entry is not a masked card.
pub fn unwrap_deck(entries: &Vec<InitialOrMaskedCard>) -> (r: Result<Vec<MaskedCard>, GameErrors>)
    ensures
        (exists|d: Seq<Seq<u8>>| wraps_deck(entries@, d)) <==> r is Ok,
        r matches Ok(d) ==> wraps_deck(entries@, deck_view(d@)),
        r matches Err(e) ==> e == GameErrors::InvalidState,
{
    let mut d: Vec<MaskedCard> = Vec::with_capacity(entries.len());
    let mut i: usize = 0;
    while i < entries.len()
        invariant
            0 <= i <= entries@.len(),
            d@.len() == i,
            forall|k: int| 0 <= k < i ==> match #[trigger] entries@[k] {
                InitialOrMaskedCard::MaskedCard(c) => c@ == d@[k]@,
                InitialOrMaskedCard::InitialCard(..) => false,
            },
        decreases entries@.len() - i,
    {
        match &entries[i] {
            InitialOrMaskedCard::MaskedCard(c) => d.push(c.copy()),
            InitialOrMaskedCard::InitialCard(..) => {
                proof {
                    assert forall|dd: Seq<Seq<u8>>| !wraps_deck(entries@, dd) by {
                        if wraps_deck(entries@, dd) {
                            assert(match entries@[i as int] {
                                InitialOrMaskedCard::MaskedCard(c) => c@ == dd[i as int],
                                InitialOrMaskedCard::InitialCard(..) => false,
                            });
                        }
                    }
                }
                return Err(GameErrors::InvalidState);
            },
        }
        i = i + 1;
    }
    assert(wraps_deck(entries@, deck_view(d@)));
    Ok(d)
}

/// The card mapping announced with the first deck: the entries must list
/// distinct plaintexts in the order of the classic cards, at most one deck
/// of them; fails `InvalidState` otherwise.
pub fn unwrap_mapping(entries: &Vec<InitialOrMaskedCard>) -> (r: Result<CardMapping, GameErrors>)
    ensures
        r matches Ok(m) ==> m.wf() && wraps_mapping(entries@, m@),
        r matches Err(e) ==> e == GameErrors::InvalidState,
        (exists|p: Seq<Card>| p.len() <= MAX_CARDS && cards_distinct(p) && wraps_mapping(entries@, encoding_of(p)))
            ==> r is Ok,
{
    if entries.len() > MAX_CARDS {
        proof {
            assert forall|p: Seq<Card>| !(p.len() <= MAX_CARDS && wraps_mapping(entries@, encoding_of(p))) by {}
        }
        return Err(GameErrors::InvalidState);
    }
    let mut p: Vec<Card> = Vec::with_capacity(entries.len());
    let mut i: usize = 0;
    while i < entries.len()
        invariant
            0 <= i <= entries@.len() <= MAX_CARDS,
            p@.len() == i,
            forall|k: int| 0 <= k < i ==> match #[trigger] entries@[k] {
                InitialOrMaskedCard::InitialCard(c, v) => c@ == p@[k]@ && v == classic_card(k),
                InitialOrMaskedCard::MaskedCard(_) => false,
            },
        decreases entries@.len() - i,
    {
        match &entries[i] {
            InitialOrMaskedCard::InitialCard(c, v) => {
                if v.value as usize != i / 4 || v.suite as usize != i % 4 {
                    proof {
                        assert forall|q: Seq<Card>| !wraps_mapping(entries@, encoding_of(q)) by {
                            if wraps_mapping(entries@, encoding_of(q)) {
                                assert(match entries@[i as int] {
                                    InitialOrMaskedCard::InitialCard(c, v) => v == encoding_of(q)[i as int].1,
                                    InitialOrMaskedCard::MaskedCard(_) => false,
                                });
                            }
                        }
                    }
                    return Err(GameErrors::InvalidState);
                }
                p.push(c.copy());
            },
            InitialOrMaskedCard::MaskedCard(_) => {
                proof {
                    assert forall|q: Seq<Card>| !wraps_mapping(entries@, encoding_of(q)) by {
                        if wraps_mapping(entries@, encoding_of(q)) {
                            assert(match entries@[i as int] {
                                InitialOrMaskedCard::InitialCard(..) => true,
                                InitialOrMaskedCard::MaskedCard(_) => false,
                            });
                        }
                    }
                }
                return Err(GameErrors::InvalidState);
            },
        }
        i = i + 1;
    }
    match CardMapping::from_plaintexts(&p) {
        Some(m) => {
            assert(wraps_mapping(entries@, m@));
            Ok(m)
        },
        None => {
            proof {
                assert forall|q: Seq<Card>| !(cards_distinct(q) && wraps_mapping(entries@, encoding_of(q))) by {
                    if cards_distinct(q) && wraps_mapping(entries@, encoding_of(q)) {
                        assert forall|a: int, b: int| 0 <= a < b < p@.len() implies p@[a]@ != p@[b]@ by {
                            assert(match entries@[a] {
                                InitialOrMaskedCard::InitialCard(c, v) => c@ == encoding_of(q)[a].0,
                                InitialOrMaskedCard::MaskedCard(_) => false,
                            });
                            assert(match entries@[b] {
                                InitialOrMaskedCard::InitialCard(c, v) => c@ == encoding_of(q)[b].0,
                                InitialOrMaskedCard::MaskedCard(_) => false,
                            });
                        }
                    }
                }
            }
            Err(GameErrors::InvalidState)
        },
    }
}

impl ZkCardGame {
    /// The broadcast that opens the shuffle round right after setup: the
    /// first shuffler, the card mapping, the initial deck and the joint key.
    /// Fails `NotReady` before setup and `InvalidState` once a player has
    /// shuffled.
    pub fn start_shuffling(&mut self) -> (r: Result<S2COp, GameErrors>)
        requires
            old(self)@.wf(),
        ensures
            final(self)@.wf(),
            !old(self)@.set_up ==> r == Err::<S2COp, GameErrors>(GameErrors::NotReady),
            old(self)@.set_up && old(self)@.chain.len() != 1 ==> r == Err::<S2COp, GameErrors>(
                GameErrors::InvalidState,
            ),
            r is Err ==> final(self)@ == old(self)@,
            old(self)@.set_up && old(self)@.chain.len() == 1 ==> match r {
                Ok(S2COp::NextShuffle(Some(p), entries, deck, ProofOrPk::JointPk(k))) => {
                    &&& wraps_mapping(entries@, old(self)@.mapping)
                    &&& deck_view(deck@) == old(self)@.initial_deck
                    &&& k@ == old(self)@.joint_pk
                    &&& final(self)@ == (GameView { nominee: Some(p), ..old(self)@ })
                    &&& old(self)@.nominee matches Some(q) ==> p == q
                    &&& old(self)@.nominee is None ==> unshuffled(old(self)@.roster, old(self)@.chain).contains(p)
                },
                _ => false,
            },
    {
        if !self.is_set_up() {
            return Err(GameErrors::NotReady);
        }
        if self.chain_len() != 1 {
            return Err(GameErrors::InvalidState);
        }
        let p = match self.next_shuffle_player() {
            Ok(p) => p,
            Err(e) => return Err(e),
        };
        let deck = self.initial_deck().unwrap();
        let entries = wrap_mapping(&self.card_mappings().unwrap());
        let key = self.joint_pk().unwrap();
        Ok(S2COp::NextShuffle(Some(p), entries, deck, ProofOrPk::JointPk(key)))
    }

    /// Records the deck that the awaited shuffler sent, nominates the next
    /// shuffler, and returns the broadcast that passes the deck on: with the
    /// next shuffler, or none once every player has shuffled. Fails as
    /// `current_shuffle_player` does while no shuffle is awaited, and
    /// `InvalidState` if the deck is not one deck long. The shuffle proof is
    /// passed on for the players to check.
    pub fn on_shuffled_cards(
        &mut self,
        original: &Vec<MaskedCard>,
        deck: Vec<MaskedCard>,
        proof: ProofShuffle,
    ) -> (r: Result<S2COp, GameErrors>)
        requires
            old(self)@.wf(),
        ensures
            final(self)@.wf(),
            r is Err ==> final(self)@ == old(self)@,
            !old(self)@.set_up ==> r == Err::<S2COp, GameErrors>(GameErrors::NotReady),
            old(self)@.set_up && old(self)@.nominee is None ==> r == Err::<S2COp, GameErrors>(
                if old(self)@.all_shuffled() { GameErrors::AllShuffled } else { GameErrors::NotReady },
            ),
            old(self)@.set_up && old(self)@.nominee is Some && deck@.len() != old(self)@.cards() ==> r == Err::<
                S2COp,
                GameErrors,
            >(GameErrors::InvalidState),
            old(self)@.set_up && old(self)@.nominee is Some && deck@.len() == old(self)@.cards() ==> ({
                let p = old(self)@.nominee->0;
                let mid = GameView {
                    chain: old(self)@.chain.push((deck_view(deck@), Some((p, proof@)))),
                    nominee: None,
                    ..old(self)@
                };
                match r {
                    Ok(S2COp::NextShuffle(next, entries, d, ProofOrPk::ProofTwo(pr))) => {
                        &&& wraps_deck(entries@, deck_view(original@))
                        &&& deck_view(d@) == deck_view(deck@)
                        &&& pr@ == proof@
                        &&& mid.all_shuffled() ==> next is None && final(self)@ == mid
                        &&& !mid.all_shuffled() ==> next is Some && unshuffled(mid.roster, mid.chain).contains(next->0)
                            && final(self)@ == (GameView { nominee: next, ..mid })
                    },
                    _ => false,
                }
            }),
    {
        let p = match self.current_shuffle_player() {
            Ok(p) => p,
            Err(e) => return Err(e),
        };
        let passed = crate::server::copy_deck(&deck);
        let pr = proof.copy();
        match self.register_shuffled_deck(deck, proof, p) {
            Ok(()) => {},
            Err(e) => return Err(e),
        }
        let next = self.next_shuffle_player();
        let next = match next {
            Ok(q) => Some(q),
            Err(_) => None,
        };
        Ok(S2COp::NextShuffle(next, wrap_deck(original), passed, ProofOrPk::ProofTwo(pr)))
    }

    /// Deals the next card to player `index` once the deck is final: the
    /// broadcast names the owner and the card's index, or nothing once the
    /// deck is exhausted. Fails `NotReady` until every player has shuffled
    /// and `InvalidState` if `index` is not on the roster.
    pub fn on_request_cards(&mut self, index: u32) -> (r: Result<S2COp, GameErrors>)
        requires
            old(self)@.wf(),
        ensures
            final(self)@.wf(),
            !old(self)@.all_shuffled() ==> r == Err::<S2COp, GameErrors>(GameErrors::NotReady),
            old(self)@.all_shuffled() && !roster_has(old(self)@.roster, index) ==> r == Err::<S2COp, GameErrors>(
                GameErrors::InvalidState,
            ),
            old(self)@.all_shuffled() && roster_has(old(self)@.roster, index) ==> if old(self)@.drawn < old(self)@.cards() {
                r == Ok::<S2COp, GameErrors>(S2COp::ReceiveCard(Some((index, old(self)@.drawn as u32))))
                    && final(self)@ == (GameView { drawn: old(self)@.drawn + 1, ..old(self)@ })
            } else {
                r == Ok::<S2COp, GameErrors>(S2COp::ReceiveCard(None)) && final(self)@ == old(self)@
            },
            r is Err ==> final(self)@ == old(self)@,
    {
        if !self.is_all_shuffled() {
            return Err(GameErrors::NotReady);
        }
        if !self.is_on_roster(index) {
            return Err(GameErrors::InvalidState);
        }
        match self.next_card() {
            Ok(c) => Ok(S2COp::ReceiveCard(Some((index, c)))),
            Err(_) => Ok(S2COp::ReceiveCard(None)),
        }
    }

    /// The shares of card `card_index` for its owner `player_index`, as the
    /// message that carries them; fails as `revealed_tokens` does, and
    /// `NotEnoughRevealedTokens` asks the caller to try again later.
    pub fn on_peek_card(&self, player_index: u32, card_index: u32) -> (r: Result<S2COp, GameErrors>)
        requires
            self@.wf(),
        ensures
            shares_of(self@.ledger, card_index).len() < self@.players() ==> r == Err::<S2COp, GameErrors>(
                GameErrors::NotEnoughRevealedTokens(shares_of(self@.ledger, card_index).len() as u32),
            ),
            shares_of(self@.ledger, card_index).len() >= self@.players() ==> match r {
                Ok(S2COp::RevealedCard(c, tokens)) => c == card_index && tokens@.map_values(
                    |t: RevealedToken| t@,
                ) == released(self@.ledger, self@.roster, card_index, player_index),
                _ => false,
            },
    {
        match self.revealed_tokens(player_index, card_index) {
            Ok(tokens) => Ok(S2COp::RevealedCard(card_index, tokens)),
            Err(e) => Err(e),
        }
    }
}

/// What a player does on a NextShuffle message, after checking it.
#[derive(Clone, Copy, Debug, PartialEq, Eq, Structural)]
pub enum ShuffleTurn {
    /// The player is nominated: it shuffles the deck and sends it back.
    Shuffle,
    /// Every player has shuffled: the deck is final and cards can be asked for.
    RequestCards,
    /// Another player shuffles next.
    Wait,
}

/// The turn of player `me` when `next` is nominated: the nominee shuffles,
/// the others wait, and once nobody is nominated everyone asks for cards.
pub open spec fn shuffle_turn_spec(me: u32, next: Option<u32>) -> ShuffleTurn {
    match next {
        Some(p) => if p == me {
            ShuffleTurn::Shuffle
        } else {
            ShuffleTurn::Wait
        },
        None => ShuffleTurn::RequestCards,
    }
}

/// The turn of player `me` when `next` is nominated.
pub fn shuffle_turn(me: u32, next: Option<u32>) -> (r: ShuffleTurn)
    ensures
        r == shuffle_turn_spec(me, next),
{
    match next {
        Some(p) => if p == me {
            ShuffleTurn::Shuffle
        } else {
            ShuffleTurn::Wait
        },
        None => ShuffleTurn::RequestCards,
    }
}

/// What a player does when a card is dealt.
#[derive(Clone, Copy, Debug, PartialEq, Eq, Structural)]
pub enum DealtCard {
    /// The card is the player's own: it takes the card and asks for its shares.
    Keep,
    /// The card is another player's: it sends its reveal share.
    Reveal,
}

/// How player `me` answers the dealing of a card to `owner`.
pub fn on_dealt(me: u32, owner: u32) -> (r: DealtCard)
    ensures
        r == (if owner == me { DealtCard::Keep } else { DealtCard::Reveal }),
{
    if owner == me {
        DealtCard::Keep
    } else {
        DealtCard::Reveal
    }
}

} // verus!
