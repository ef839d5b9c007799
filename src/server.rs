//! The game coordinator: the authoritative state of one game, from check-in
//! through setup, the chain of shuffles, dealing and the reveal ledger.
use vstd::prelude::*;
use crate::config::ZkGameConfig;
use crate::error::{GameErrors, ProofFailure};
use crate::player::Surrogate;
use crate::user_card::{all_distinct, cards_distinct, encode_cards, encoding_of, CardMapping, ClassicPlayingCard};
use crate::values::{
    copy_bytes, AggregatePublicKey, Card, CardParameters, MaskedCard, PlayerPublicKey,
    ProofKeyOwnership, ProofReveal, ProofShuffle, RevealToken,
};

verus! {

/// What a surrogate holds: name, public key, ownership proof.
pub type SurrogateView = (Seq<u8>, Seq<u8>, Seq<u8>);

/// A deck of masked cards, as encodings.
pub type DeckView = Seq<Seq<u8>>;

/// A shuffle record: the deck after the step, and who shuffled with which proof.
pub type RecordView = (DeckView, Option<(u32, Seq<u8>)>);

/// A reveal share: card index, contributing player, token, proof.
pub type ShareView = (u32, u32, Seq<u8>, Seq<u8>);

pub open spec fn deck_view(d: Seq<MaskedCard>) -> DeckView {
    d.map_values(|c: MaskedCard| c@)
}

/// One step of the shuffle chain. Only the first record of a chain, the deck
/// as masked at setup, has no player and proof.
#[derive(Clone, Debug)]
pub struct ShuffleRecord {
    pub deck: Vec<MaskedCard>,
    pub shuffled_by: Option<(u32, ProofShuffle)>,
}

impl View for ShuffleRecord {
    type V = RecordView;

    open spec fn view(&self) -> RecordView {
        (
            deck_view(self.deck@),
            match self.shuffled_by {
                Some(s) => Some((s.0, s.1@)),
                None => None,
            },
        )
    }
}

/// A reveal share held by the coordinator.
#[derive(Clone, Debug)]
pub struct RevealedInfo {
    pub card: u32,
    pub token: RevealToken,
    pub proof: ProofReveal,
    pub player: u32,
}

impl View for RevealedInfo {
    type V = ShareView;

    open spec fn view(&self) -> ShareView {
        (self.card, self.player, self.token@, self.proof@)
    }
}

/// A reveal share as handed to the owner of a card: the contributor is named
/// by its public key.
#[derive(Clone, Debug)]
pub struct RevealedToken {
    pub token: RevealToken,
    pub proof: ProofReveal,
    pub player: PlayerPublicKey,
}

impl View for RevealedToken {
    type V = (Seq<u8>, Seq<u8>, Seq<u8>);

    open spec fn view(&self) -> (Seq<u8>, Seq<u8>, Seq<u8>) {
        (self.token@, self.proof@, self.player@)
    }
}

pub open spec fn performer(r: RecordView) -> Option<u32> {
    match r.1 {
        Some(s) => Some(s.0),
        None => None,
    }
}

/// Whether `p` performed one of the shuffles of `chain`.
pub open spec fn has_shuffled(chain: Seq<RecordView>, p: u32) -> bool {
    exists|k: int| 0 <= k < chain.len() && performer(chain[k]) == Some(p)
}

pub open spec fn roster_has(roster: Seq<(u32, SurrogateView)>, p: u32) -> bool {
    exists|k: int| 0 <= k < roster.len() && roster[k].0 == p
}

pub open spec fn ids_distinct(roster: Seq<(u32, SurrogateView)>) -> bool {
    forall|j: int, k: int| 0 <= j < k < roster.len() ==> roster[j].0 != roster[k].0
}

/// The public key that the roster holds for player `p`.
pub open spec fn pk_of(roster: Seq<(u32, SurrogateView)>, p: u32) -> Seq<u8> {
    roster[choose|k: int| 0 <= k < roster.len() && roster[k].0 == p].1.1
}

/// The roster's player indices that have not shuffled yet, in roster order.
pub open spec fn unshuffled(roster: Seq<(u32, SurrogateView)>, chain: Seq<RecordView>) -> Seq<u32>
    decreases roster.len(),
{
    if roster.len() == 0 {
        Seq::empty()
    } else {
        let rest = unshuffled(roster.drop_last(), chain);
        if has_shuffled(chain, roster.last().0) {
            rest
        } else {
            rest.push(roster.last().0)
        }
    }
}

/// The shares of `ledger` for card `card`, in arrival order.
pub open spec fn shares_of(ledger: Seq<ShareView>, card: u32) -> Seq<ShareView>
    decreases ledger.len(),
{
    if ledger.len() == 0 {
        Seq::empty()
    } else {
        let rest = shares_of(ledger.drop_last(), card);
        if ledger.last().0 == card {
            rest.push(ledger.last())
        } else {
            rest
        }
    }
}

pub open spec fn has_share(ledger: Seq<ShareView>, card: u32, player: u32) -> bool {
    exists|k: int| 0 <= k < ledger.len() && ledger[k].0 == card && ledger[k].1 == player
}

/// The shares for `card` from players other than `except`, each with the
/// contributor's public key, in arrival order.
pub open spec fn released(
    ledger: Seq<ShareView>,
    roster: Seq<(u32, SurrogateView)>,
    card: u32,
    except: u32,
) -> Seq<(Seq<u8>, Seq<u8>, Seq<u8>)>
    decreases ledger.len(),
{
    if ledger.len() == 0 {
        Seq::empty()
    } else {
        let rest = released(ledger.drop_last(), roster, card, except);
        let s = ledger.last();
        if s.0 == card && s.1 != except {
            rest.push((s.2, s.3, pk_of(roster, s.1)))
        } else {
            rest
        }
    }
}

/// The coordinator's state, as the contracts see it.
pub struct GameView {
    pub config: ZkGameConfig,
    pub parameters: Seq<u8>,
    /// Checked-in players, by index, in arrival order.
    pub roster: Seq<(u32, SurrogateView)>,
    pub set_up: bool,
    pub joint_pk: Seq<u8>,
    pub mapping: Seq<(Seq<u8>, ClassicPlayingCard)>,
    pub initial_deck: DeckView,
    pub chain: Seq<RecordView>,
    /// The player whose shuffle is awaited.
    pub nominee: Option<u32>,
    pub ledger: Seq<ShareView>,
    /// How many cards have been dealt.
    pub drawn: nat,
}

impl GameView {
    pub open spec fn players(&self) -> nat {
        self.config.spec_players()
    }

    pub open spec fn cards(&self) -> nat {
        self.config.card_total()
    }

    pub open spec fn ready_to_shuffle(&self) -> bool {
        self.roster.len() == self.players()
    }

    /// Every player has shuffled: the initial record plus one per player.
    pub open spec fn all_shuffled(&self) -> bool {
        self.set_up && self.chain.len() == self.players() + 1
    }

    pub open spec fn wf(&self) -> bool {
        &&& self.config.valid()
        &&& ids_distinct(self.roster)
        &&& self.roster.len() <= self.players()
        &&& self.drawn <= self.cards()
        &&& self.drawn > 0 ==> self.all_shuffled()
        &&& self.ledger.len() > 0 ==> self.all_shuffled()
        &&& forall|k: int| 0 <= k < self.ledger.len() ==> roster_has(self.roster, #[trigger] self.ledger[k].1)
        &&& forall|j: int, k: int| 0 <= j < k < self.ledger.len() ==>
            !(self.ledger[j].0 == self.ledger[k].0 && self.ledger[j].1 == self.ledger[k].1)
        &&& self.set_up ==> self.wf_chain()
        &&& !self.set_up ==> self.chain.len() == 0 && self.nominee is None
    }

    pub open spec fn wf_chain(&self) -> bool {
        &&& self.roster.len() == self.players()
        &&& 1 <= self.chain.len() <= self.players() + 1
        &&& self.mapping.len() == self.cards()
        &&& self.initial_deck.len() == self.cards()
        &&& self.chain[0] == (self.initial_deck, None::<(u32, Seq<u8>)>)
        &&& forall|k: int| 0 <= k < self.chain.len() ==> (#[trigger] self.chain[k]).0.len() == self.cards()
        &&& forall|k: int| 1 <= k < self.chain.len() ==> performer(#[trigger] self.chain[k]) is Some
            && roster_has(self.roster, performer(self.chain[k])->0)
        &&& forall|j: int, k: int| 1 <= j < k < self.chain.len() ==>
            performer(#[trigger] self.chain[j]) != performer(#[trigger] self.chain[k])
        &&& self.nominee matches Some(p) ==> roster_has(self.roster, p) && !has_shuffled(self.chain, p)
            && self.chain.len() < self.players() + 1
    }
}

/// A fresh vector holding the same masked cards.
pub fn copy_deck(d: &Vec<MaskedCard>) -> (r: Vec<MaskedCard>)
    ensures
        deck_view(r@) == deck_view(d@),
{
    let mut r: Vec<MaskedCard> = Vec::with_capacity(d.len());
    let mut i: usize = 0;
    while i < d.len()
        invariant
            0 <= i <= d@.len(),
            r@.len() == i,
            forall|k: int| 0 <= k < i ==> (#[trigger] r@[k])@ == d@[k]@,
        decreases d@.len() - i,
    {
        r.push(d[i].copy());
        i = i + 1;
    }
    assert(deck_view(r@) =~= deck_view(d@));
    r
}

/// What setup fixes once and for all.
pub struct ZkCardGameInitInfo {
    shared_key: AggregatePublicKey,
    initial_cards: CardMapping,
    initial_deck: Vec<MaskedCard>,
    next_shuffle_player: Option<u32>,
    shuffled_decks: Vec<ShuffleRecord>,
}

impl ZkCardGameInitInfo {
    pub closed spec fn spec_shared_key(&self) -> Seq<u8> {
        self.shared_key@
    }

    pub closed spec fn spec_mapping(&self) -> Seq<(Seq<u8>, ClassicPlayingCard)> {
        self.initial_cards@
    }

    pub closed spec fn spec_initial_deck(&self) -> DeckView {
        deck_view(self.initial_deck@)
    }

    pub closed spec fn spec_nominee(&self) -> Option<u32> {
        self.next_shuffle_player
    }

    pub closed spec fn spec_chain(&self) -> Seq<RecordView> {
        self.shuffled_decks@.map_values(|r: ShuffleRecord| r@)
    }

    /// The setup result before any shuffle: no record yet, no nominee.
    pub fn new(shared_key: AggregatePublicKey, initial_cards: CardMapping, initial_deck: Vec<MaskedCard>) -> (r: Self)
        ensures
            r.spec_shared_key() == shared_key@,
            r.spec_mapping() == initial_cards@,
            r.spec_initial_deck() == deck_view(initial_deck@),
            r.spec_nominee() is None,
            r.spec_chain().len() == 0,
    {
        ZkCardGameInitInfo {
            shared_key,
            initial_cards,
            initial_deck,
            next_shuffle_player: None,
            shuffled_decks: Vec::new(),
        }
    }
}

/// The coordinator of one game.
pub struct ZkCardGame {
    config: ZkGameConfig,
    parameters: CardParameters,
    players: Vec<(u32, Surrogate)>,
    basic: Option<ZkCardGameInitInfo>,
    revealed_tokens: Vec<RevealedInfo>,
    next_card: usize,
}

impl View for ZkCardGame {
    type V = GameView;

    closed spec fn view(&self) -> GameView {
        GameView {
            config: self.config,
            parameters: self.parameters@,
            roster: self.players@.map_values(|e: (u32, Surrogate)| (e.0, e.1@)),
            set_up: self.basic is Some,
            joint_pk: match self.basic {
                Some(b) => b.spec_shared_key(),
                None => Seq::empty(),
            },
            mapping: match self.basic {
                Some(b) => b.spec_mapping(),
                None => Seq::empty(),
            },
            initial_deck: match self.basic {
                Some(b) => b.spec_initial_deck(),
                None => Seq::empty(),
            },
            chain: match self.basic {
                Some(b) => b.spec_chain(),
                None => Seq::empty(),
            },
            nominee: match self.basic {
                Some(b) => b.spec_nominee(),
                None => None,
            },
            ledger: self.revealed_tokens@.map_values(|i: RevealedInfo| i@),
            drawn: self.next_card as nat,
        }
    }
}

impl ZkCardGame {
    /// A game for `config` with the scheme parameters generated for it; fails
    /// `InvalidParameters` unless `0 < m * n <= 52` and `players > 0`.
    pub fn new(config: ZkGameConfig, parameters: CardParameters) -> (r: Result<Self, GameErrors>)
        ensures
            config.valid() <==> r is Ok,
            r matches Err(e) ==> e == GameErrors::InvalidParameters,
            r matches Ok(g) ==> g@.wf() && g@ == (GameView {
                config,
                parameters: parameters@,
                roster: Seq::empty(),
                set_up: false,
                joint_pk: Seq::empty(),
                mapping: Seq::empty(),
                initial_deck: Seq::empty(),
                chain: Seq::empty(),
                nominee: None,
                ledger: Seq::empty(),
                drawn: 0,
            }),
    {
        if !config.is_valid() {
            return Err(GameErrors::InvalidParameters);
        }
        let g = ZkCardGame {
            config,
            parameters,
            players: Vec::new(),
            basic: None,
            revealed_tokens: Vec::new(),
            next_card: 0,
        };
        assert(g@.roster =~= Seq::empty());
        assert(g@.ledger =~= Seq::empty());
        Ok(g)
    }

    /// Position of player `index` in the roster.
    fn find_player(&self, index: u32) -> (r: Option<usize>)
        ensures
            r matches Some(k) ==> k < self@.roster.len() && self@.roster[k as int].0 == index,
            r is None ==> !roster_has(self@.roster, index),
    {
        let mut k: usize = 0;
        while k < self.players.len()
            invariant
                0 <= k <= self.players@.len(),
                self@.roster == self.players@.map_values(|e: (u32, Surrogate)| (e.0, e.1@)),
                forall|j: int| 0 <= j < k ==> self@.roster[j].0 != index,
            decreases self.players@.len() - k,
        {
            if self.players[k].0 == index {
                return Some(k);
            }
            k = k + 1;
        }
        None
    }

    /// Adds player `index` to the roster: fails `DuplicatePlayer` if the
    /// index has checked in already, `InvalidState` if the roster is full.
    pub fn check_in(&mut self, index: u32, surrogate: Surrogate) -> (r: Result<(), GameErrors>)
        requires
            old(self)@.wf(),
        ensures
            final(self)@.wf(),
            roster_has(old(self)@.roster, index) ==> r == Err::<(), GameErrors>(GameErrors::DuplicatePlayer)
                && final(self)@ == old(self)@,
            !roster_has(old(self)@.roster, index) && old(self)@.ready_to_shuffle() ==> r == Err::<(), GameErrors>(
                GameErrors::InvalidState,
            ) && final(self)@ == old(self)@,
            !roster_has(old(self)@.roster, index) && !old(self)@.ready_to_shuffle() ==> r is Ok
                && final(self)@ == (GameView { roster: old(self)@.roster.push((index, surrogate@)), ..old(self)@ }),
    {
        if self.find_player(index).is_some() {
            return Err(GameErrors::DuplicatePlayer);
        }
        if self.players.len() == self.config.players() {
            return Err(GameErrors::InvalidState);
        }
        let ghost before = self@;
        self.players.push((index, surrogate));
        proof {
            let want = GameView { roster: before.roster.push((index, surrogate@)), ..before };
            assert(self@.roster =~= want.roster);
            assert(self@ == want);
            assert forall|k: int| 0 <= k < self@.ledger.len() implies roster_has(self@.roster, #[trigger] self@.ledger[k].1) by {
                let j = choose|j: int| 0 <= j < before.roster.len() && before.roster[j].0 == self@.ledger[k].1;
                assert(self@.roster[j] == before.roster[j]);
            }
        }
        Ok(())
    }

    /// Whether player `index` has checked in.
    pub fn is_on_roster(&self, index: u32) -> (r: bool)
        ensures
            r == roster_has(self@.roster, index),
    {
        self.find_player(index).is_some()
    }

    /// Whether the roster is complete.
    pub fn ready_to_shuffle(&self) -> (r: bool)
        ensures
            r == self@.ready_to_shuffle(),
    {
        self.players.len() == self.config.players()
    }

    /// Takes player `index` off the roster before setup, so that it can
    /// check in again: fails `InvalidState` after setup or if no such player
    /// has checked in.
    pub fn check_out(&mut self, index: u32) -> (r: Result<Surrogate, GameErrors>)
        requires
            old(self)@.wf(),
        ensures
            final(self)@.wf(),
            old(self)@.set_up || !roster_has(old(self)@.roster, index) ==> r == Err::<Surrogate, GameErrors>(
                GameErrors::InvalidState,
            ) && final(self)@ == old(self)@,
            !old(self)@.set_up && roster_has(old(self)@.roster, index) ==> r is Ok && exists|k: int|
                0 <= k < old(self)@.roster.len() && old(self)@.roster[k].0 == index && r->Ok_0@ == old(self)@.roster[k].1
                    && final(self)@ == (GameView { roster: old(self)@.roster.remove(k), ..old(self)@ }),
    {
        if self.basic.is_some() {
            return Err(GameErrors::InvalidState);
        }
        let k = match self.find_player(index) {
            Some(k) => k,
            None => return Err(GameErrors::InvalidState),
        };
        let ghost before = self@;
        let (_, s) = self.players.remove(k);
        proof {
            let want = GameView { roster: before.roster.remove(k as int), ..before };
            assert(self@.roster =~= want.roster);
            assert(self@ == want);
        }
        Ok(s)
    }

    /// Checks in a batch of players at once: fails `DuplicatePlayer` if an
    /// index is on the roster already or occurs twice in the batch, and
    /// `InvalidState` if the roster would outgrow the player count. On
    /// failure nobody is added.
    pub fn register_players(&mut self, players: Vec<(u32, Surrogate)>) -> (r: Result<(), GameErrors>)
        requires
            old(self)@.wf(),
        ensures
            final(self)@.wf(),
            ({
                let batch = players@.map_values(|e: (u32, Surrogate)| (e.0, e.1@));
                let dup = exists|i: int| 0 <= i < batch.len() && (roster_has(old(self)@.roster, batch[i].0)
                    || exists|j: int| 0 <= j < i && batch[j].0 == batch[i].0);
                &&& dup ==> r == Err::<(), GameErrors>(GameErrors::DuplicatePlayer) && final(self)@ == old(self)@
                &&& !dup && old(self)@.roster.len() + batch.len() > old(self)@.players() ==> r == Err::<(), GameErrors>(
                    GameErrors::InvalidState,
                ) && final(self)@ == old(self)@
                &&& !dup && old(self)@.roster.len() + batch.len() <= old(self)@.players() ==> r is Ok
                    && final(self)@ == (GameView { roster: old(self)@.roster + batch, ..old(self)@ })
            }),
    {
        let ghost batch = players@.map_values(|e: (u32, Surrogate)| (e.0, e.1@));
        let mut i: usize = 0;
        while i < players.len()
            invariant
                0 <= i <= players@.len(),
                self@ == old(self)@,
                old(self)@.wf(),
                batch == players@.map_values(|e: (u32, Surrogate)| (e.0, e.1@)),
                forall|a: int| 0 <= a < i ==> !roster_has(self@.roster, #[trigger] batch[a].0),
                forall|a: int, b: int| 0 <= b < a < i ==> batch[b].0 != batch[a].0,
            decreases players@.len() - i,
        {
            if self.find_player(players[i].0).is_some() {
                assert(batch[i as int].0 == players@[i as int].0);
                return Err(GameErrors::DuplicatePlayer);
            }
            let mut j: usize = 0;
            while j < i
                invariant
                    0 <= j <= i < players@.len(),
                    self@ == old(self)@,
                    old(self)@.wf(),
                    batch == players@.map_values(|e: (u32, Surrogate)| (e.0, e.1@)),
                    forall|b: int| 0 <= b < j ==> batch[b].0 != batch[i as int].0,
                decreases i - j,
            {
                if players[j].0 == players[i].0 {
                    assert(batch[j as int].0 == batch[i as int].0);
                    return Err(GameErrors::DuplicatePlayer);
                }
                j = j + 1;
            }
            i = i + 1;
        }
        if players.len() > self.config.players() - self.players.len() {
            return Err(GameErrors::InvalidState);
        }
        let ghost before = self@;
        let mut players = players;
        self.players.append(&mut players);
        proof {
            let want = GameView { roster: before.roster + batch, ..before };
            assert(self@.roster =~= want.roster);
            assert(self@ == want);
            assert forall|k: int| 0 <= k < self@.ledger.len() implies roster_has(self@.roster, #[trigger] self@.ledger[k].1) by {
                let j = choose|j: int| 0 <= j < before.roster.len() && before.roster[j].0 == self@.ledger[k].1;
                assert(self@.roster[j] == before.roster[j]);
            }
            assert forall|a: int, b: int| 0 <= a < b < self@.roster.len() implies self@.roster[a].0 != self@.roster[b].0 by {
                if b >= before.roster.len() && a < before.roster.len() {
                    let bb = b - before.roster.len();
                    assert(!roster_has(before.roster, batch[bb].0));
                    assert(before.roster[a].0 != batch[bb].0);
                }
            }
        }
        Ok(())
    }

    /// Each checked-in player's public key, ownership proof and name, in
    /// roster order: the input of the aggregate-key computation.
    pub fn key_proof_info(&self) -> (r: Vec<(PlayerPublicKey, ProofKeyOwnership, Vec<u8>)>)
        ensures
            r@.len() == self@.roster.len(),
            forall|k: int| 0 <= k < r@.len() ==> ((#[trigger] r@[k]).0@, r@[k].1@, r@[k].2@) == (
                self@.roster[k].1.1,
                self@.roster[k].1.2,
                self@.roster[k].1.0,
            ),
    {
        let mut r: Vec<(PlayerPublicKey, ProofKeyOwnership, Vec<u8>)> = Vec::with_capacity(self.players.len());
        let mut k: usize = 0;
        while k < self.players.len()
            invariant
                0 <= k <= self.players@.len(),
                r@.len() == k,
                self@.roster == self.players@.map_values(|e: (u32, Surrogate)| (e.0, e.1@)),
                forall|j: int| 0 <= j < k ==> ((#[trigger] r@[j]).0@, r@[j].1@, r@[j].2@) == (
                    self@.roster[j].1.1,
                    self@.roster[j].1.2,
                    self@.roster[j].1.0,
                ),
            decreases self.players@.len() - k,
        {
            let s = &self.players[k].1;
            r.push((s.pk.copy(), s.proof_key.copy(), copy_bytes(&s.name)));
            k = k + 1;
        }
        r
    }

    /// Fixes the game's cards once the roster is complete. `plaintexts` are
    /// the plaintext card values, assigned to the classic cards in order;
    /// `joint_pk` is the outcome of aggregating the roster's keys, which
    /// fails on an invalid ownership proof; `deck` holds `plaintexts[i]`
    /// masked under that key at position `i`. Fails `InvalidState` if the
    /// game is set up already, `NotReady` if the roster is not complete,
    /// `ProtocolError` if aggregation failed, and `InvalidState` if the
    /// plaintexts are not distinct or either vector is not one deck long.
    /// On success the masked deck is the first, proof-less, record of the
    /// shuffle chain. On failure nothing changes, so setup can run again.
    pub fn setup(
        &mut self,
        plaintexts: Vec<Card>,
        joint_pk: Result<AggregatePublicKey, ProofFailure>,
        deck: Vec<MaskedCard>,
    ) -> (r: Result<(), GameErrors>)
        requires
            old(self)@.wf(),
        ensures
            final(self)@.wf(),
            old(self)@.set_up ==> r == Err::<(), GameErrors>(GameErrors::InvalidState),
            !old(self)@.set_up && !old(self)@.ready_to_shuffle() ==> r == Err::<(), GameErrors>(
                GameErrors::NotReady,
            ),
            !old(self)@.set_up && old(self)@.ready_to_shuffle() ==> match joint_pk {
                Err(f) => r == Err::<(), GameErrors>(GameErrors::ProtocolError(f)),
                Ok(k) => if plaintexts@.len() != old(self)@.cards() || deck@.len() != old(self)@.cards()
                    || !cards_distinct(plaintexts@) {
                    r == Err::<(), GameErrors>(GameErrors::InvalidState)
                } else {
                    r is Ok && final(self)@ == (GameView {
                        set_up: true,
                        joint_pk: k@,
                        mapping: encoding_of(plaintexts@),
                        initial_deck: deck_view(deck@),
                        chain: seq![(deck_view(deck@), None::<(u32, Seq<u8>)>)],
                        nominee: None,
                        ..old(self)@
                    })
                },
            },
            r is Err ==> final(self)@ == old(self)@,
    {
        if self.basic.is_some() {
            return Err(GameErrors::InvalidState);
        }
        if !self.ready_to_shuffle() {
            return Err(GameErrors::NotReady);
        }
        let key = match joint_pk {
            Ok(k) => k,
            Err(f) => return Err(GameErrors::ProtocolError(f)),
        };
        let cards = self.config.num_of_cards();
        if plaintexts.len() != cards || deck.len() != cards || !all_distinct(&plaintexts) {
            return Err(GameErrors::InvalidState);
        }
        let mapping = encode_cards(&plaintexts);
        let first = ShuffleRecord { deck: copy_deck(&deck), shuffled_by: None };
        let mut info = ZkCardGameInitInfo::new(key, mapping, deck);
        info.shuffled_decks.push(first);
        let ghost before = self@;
        self.basic = Some(info);
        proof {
            let want = GameView {
                set_up: true,
                joint_pk: self@.joint_pk,
                mapping: encoding_of(plaintexts@),
                initial_deck: self@.initial_deck,
                chain: seq![(self@.initial_deck, None::<(u32, Seq<u8>)>)],
                nominee: None,
                ..before
            };
            assert(self@.chain =~= want.chain);
            assert(self@ == want);
        }
        Ok(())
    }

    /// Whether the game is set up.
    pub fn is_set_up(&self) -> (r: bool)
        ensures
            r == self@.set_up,
    {
        self.basic.is_some()
    }

    /// Whether every player has shuffled the deck: the chain holds the
    /// initial record and one record per player.
    pub fn is_all_shuffled(&self) -> (r: bool)
        requires
            self@.wf(),
        ensures
            r == self@.all_shuffled(),
    {
        match &self.basic {
            Some(b) => {
                let players = self.config.players();
                b.shuffled_decks.len() - 1 == players
            },
            None => false,
        }
    }

    /// Number of records in the shuffle chain.
    pub fn chain_len(&self) -> (r: usize)
        ensures
            r == self@.chain.len(),
    {
        match &self.basic {
            Some(b) => b.shuffled_decks.len(),
            None => 0,
        }
    }

    /// Whether `p` has performed one of the chain's shuffles.
    fn shuffled_already(&self, p: u32) -> (r: bool)
        requires
            self@.set_up,
        ensures
            r == has_shuffled(self@.chain, p),
    {
        let b = self.basic.as_ref().unwrap();
        let mut k: usize = 0;
        while k < b.shuffled_decks.len()
            invariant
                0 <= k <= b.shuffled_decks@.len(),
                self@.chain == b.shuffled_decks@.map_values(|r: ShuffleRecord| r@),
                forall|j: int| 0 <= j < k ==> performer(self@.chain[j]) != Some(p),
            decreases b.shuffled_decks@.len() - k,
        {
            match &b.shuffled_decks[k].shuffled_by {
                Some(s) => {
                    if s.0 == p {
                        assert(performer(self@.chain[k as int]) == Some(p));
                        return true;
                    }
                },
                None => {},
            }
            k = k + 1;
        }
        false
    }

    /// The roster's players that have not shuffled yet, in roster order.
    fn unshuffled_players(&self) -> (r: Vec<u32>)
        requires
            self@.set_up,
        ensures
            r@ == unshuffled(self@.roster, self@.chain),
    {
        let mut r: Vec<u32> = Vec::new();
        let mut k: usize = 0;
        while k < self.players.len()
            invariant
                0 <= k <= self.players@.len(),
                self@.set_up,
                self@.roster == self.players@.map_values(|e: (u32, Surrogate)| (e.0, e.1@)),
                r@ == unshuffled(self@.roster.subrange(0, k as int), self@.chain),
            decreases self.players@.len() - k,
        {
            let p = self.players[k].0;
            proof {
                let next = self@.roster.subrange(0, k + 1);
                assert(next.drop_last() =~= self@.roster.subrange(0, k as int));
                assert(next.last().0 == p);
            }
            if !self.shuffled_already(p) {
                r.push(p);
            }
            k = k + 1;
        }
        assert(self@.roster.subrange(0, k as int) =~= self@.roster);
        r
    }

    /// The player whose shuffle comes next, chosen by `draw` among those that
    /// have not shuffled: the awaited player if one is nominated, else
    /// position `draw` modulo their number. Fails `NotReady` before setup and
    /// `AllShuffled` once every player has shuffled.
    pub fn pick_shuffle_player(&self, draw: usize) -> (r: Result<u32, GameErrors>)
        requires
            self@.wf(),
        ensures
            !self@.set_up ==> r == Err::<u32, GameErrors>(GameErrors::NotReady),
            self@.set_up && self@.all_shuffled() ==> r == Err::<u32, GameErrors>(GameErrors::AllShuffled),
            self@.set_up && !self@.all_shuffled() ==> match self@.nominee {
                Some(p) => r == Ok::<u32, GameErrors>(p),
                None => {
                    let c = unshuffled(self@.roster, self@.chain);
                    r == Ok::<u32, GameErrors>(c[draw as int % c.len() as int])
                },
            },
    {
        if self.basic.is_none() {
            return Err(GameErrors::NotReady);
        }
        if self.is_all_shuffled() {
            return Err(GameErrors::AllShuffled);
        }
        if let Some(p) = self.basic.as_ref().unwrap().next_shuffle_player {
            return Ok(p);
        }
        let c = self.unshuffled_players();
        proof {
            lemma_someone_left_to_shuffle(self@);
        }
        Ok(c[draw % c.len()])
    }

    /// Nominates the player whose shuffle comes next, drawn uniformly at
    /// random among those that have not shuffled; while a nominee's shuffle
    /// is awaited, that nominee is returned again. Fails `NotReady` before
    /// setup and `AllShuffled` once every player has shuffled.
    pub fn next_shuffle_player(&mut self) -> (r: Result<u32, GameErrors>)
        requires
            old(self)@.wf(),
        ensures
            final(self)@.wf(),
            !old(self)@.set_up ==> r == Err::<u32, GameErrors>(GameErrors::NotReady),
            old(self)@.set_up && old(self)@.all_shuffled() ==> r == Err::<u32, GameErrors>(
                GameErrors::AllShuffled,
            ),
            old(self)@.set_up && !old(self)@.all_shuffled() ==> match old(self)@.nominee {
                Some(p) => r == Ok::<u32, GameErrors>(p),
                None => {
                    let c = unshuffled(old(self)@.roster, old(self)@.chain);
                    r is Ok && c.contains(r->Ok_0)
                        && final(self)@ == (GameView { nominee: Some(r->Ok_0), ..old(self)@ })
                },
            },
            r is Err || old(self)@.nominee is Some ==> final(self)@ == old(self)@,
    {
        if self.basic.is_none() {
            return Err(GameErrors::NotReady);
        }
        if self.is_all_shuffled() {
            return Err(GameErrors::AllShuffled);
        }
        if let Some(p) = self.basic.as_ref().unwrap().next_shuffle_player {
            return Ok(p);
        }
        let c = self.unshuffled_players();
        proof {
            lemma_someone_left_to_shuffle(self@);
        }
        let p = c[random_below(c.len())];
        proof {
            lemma_unshuffled_member(self@.roster, self@.chain, p);
        }
        let ghost before = self@;
        let mut b = self.basic.take().unwrap();
        b.next_shuffle_player = Some(p);
        self.basic = Some(b);
        assert(self@ == (GameView { nominee: Some(p), ..before }));
        Ok(p)
    }

    /// The nominated player whose shuffle is awaited. Fails `NotReady`
    /// before setup or while nobody is nominated, and `AllShuffled` once
    /// every player has shuffled.
    pub fn current_shuffle_player(&self) -> (r: Result<u32, GameErrors>)
        requires
            self@.wf(),
        ensures
            !self@.set_up ==> r == Err::<u32, GameErrors>(GameErrors::NotReady),
            self@.set_up ==> match self@.nominee {
                Some(p) => r == Ok::<u32, GameErrors>(p),
                None => if self@.all_shuffled() {
                    r == Err::<u32, GameErrors>(GameErrors::AllShuffled)
                } else {
                    r == Err::<u32, GameErrors>(GameErrors::NotReady)
                },
            },
    {
        match &self.basic {
            None => Err(GameErrors::NotReady),
            Some(b) => match b.next_shuffle_player {
                Some(p) => Ok(p),
                None => if self.is_all_shuffled() {
                    Err(GameErrors::AllShuffled)
                } else {
                    Err(GameErrors::NotReady)
                },
            },
        }
    }

    /// Appends the deck shuffled by `player`, with its proof, to the chain.
    /// Fails `NotReady` before setup, `AllShuffled` once every player has
    /// shuffled, and `InvalidState` unless `player` is the nominee and the
    /// deck is one deck long. The next nominee is then still to be drawn.
    pub fn register_shuffled_deck(
        &mut self,
        deck: Vec<MaskedCard>,
        proof: ProofShuffle,
        player: u32,
    ) -> (r: Result<(), GameErrors>)
        requires
            old(self)@.wf(),
        ensures
            final(self)@.wf(),
            !old(self)@.set_up ==> r == Err::<(), GameErrors>(GameErrors::NotReady),
            old(self)@.set_up && old(self)@.all_shuffled() ==> r == Err::<(), GameErrors>(
                GameErrors::AllShuffled,
            ),
            old(self)@.set_up && !old(self)@.all_shuffled() && (old(self)@.nominee != Some(player)
                || deck@.len() != old(self)@.cards()) ==> r == Err::<(), GameErrors>(GameErrors::InvalidState),
            old(self)@.set_up && !old(self)@.all_shuffled() && old(self)@.nominee == Some(player)
                && deck@.len() == old(self)@.cards() ==> r is Ok && final(self)@ == (GameView {
                chain: old(self)@.chain.push((deck_view(deck@), Some((player, proof@)))),
                nominee: None,
                ..old(self)@
            }),
            r is Err ==> final(self)@ == old(self)@,
    {
        if self.basic.is_none() {
            return Err(GameErrors::NotReady);
        }
        if self.is_all_shuffled() {
            return Err(GameErrors::AllShuffled);
        }
        if self.basic.as_ref().unwrap().next_shuffle_player != Some(player) {
            return Err(GameErrors::InvalidState);
        }
        if deck.len() != self.config.num_of_cards() {
            return Err(GameErrors::InvalidState);
        }
        let ghost before = self@;
        let ghost rec = (deck_view(deck@), Some((player, proof@)));
        let mut b = self.basic.take().unwrap();
        b.shuffled_decks.push(ShuffleRecord { deck, shuffled_by: Some((player, proof)) });
        b.next_shuffle_player = None;
        self.basic = Some(b);
        proof {
            let want = GameView { chain: before.chain.push(rec), nominee: None, ..before };
            assert(self@.chain =~= want.chain);
            assert(self@ == want);
            assert forall|j: int, k: int| 1 <= j < k < self@.chain.len() implies
                performer(#[trigger] self@.chain[j]) != performer(#[trigger] self@.chain[k]) by {
                if k == before.chain.len() {
                    assert(performer(before.chain[j]) != Some(player));
                }
            }
        }
        Ok(())
    }

    /// The most recent deck of the shuffle chain; fails `NotReady` before
    /// setup.
    pub fn latest_deck(&self) -> (r: Result<Vec<MaskedCard>, GameErrors>)
        requires
            self@.wf(),
        ensures
            !self@.set_up ==> r == Err::<Vec<MaskedCard>, GameErrors>(GameErrors::NotReady),
            self@.set_up ==> r is Ok && deck_view(r->Ok_0@) == self@.chain.last().0,
    {
        match &self.basic {
            None => Err(GameErrors::NotReady),
            Some(b) => {
                let n = b.shuffled_decks.len();
                Ok(copy_deck(&b.shuffled_decks[n - 1].deck))
            },
        }
    }

    /// Deals the next card of the final deck: returns its index and moves
    /// past it. Fails `NotReady` until every player has shuffled and
    /// `NoMoreCards` once all `m * n` cards are dealt.
    pub fn next_card(&mut self) -> (r: Result<u32, GameErrors>)
        requires
            old(self)@.wf(),
        ensures
            final(self)@.wf(),
            !old(self)@.all_shuffled() ==> r == Err::<u32, GameErrors>(GameErrors::NotReady),
            old(self)@.all_shuffled() && old(self)@.drawn >= old(self)@.cards() ==> r == Err::<u32, GameErrors>(
                GameErrors::NoMoreCards,
            ),
            old(self)@.all_shuffled() && old(self)@.drawn < old(self)@.cards() ==> r == Ok::<u32, GameErrors>(
                old(self)@.drawn as u32,
            ) && final(self)@ == (GameView { drawn: old(self)@.drawn + 1, ..old(self)@ }),
            r is Err ==> final(self)@ == old(self)@,
    {
        if !self.is_all_shuffled() {
            return Err(GameErrors::NotReady);
        }
        let next = self.next_card;
        if next >= self.config.num_of_cards() {
            return Err(GameErrors::NoMoreCards);
        }
        self.next_card = next + 1;
        Ok(next as u32)
    }

    /// How many shares the ledger holds for card `card`.
    fn count_shares(&self, card: u32) -> (r: usize)
        ensures
            r == shares_of(self@.ledger, card).len(),
    {
        let mut n: usize = 0;
        let mut k: usize = 0;
        while k < self.revealed_tokens.len()
            invariant
                0 <= k <= self.revealed_tokens@.len(),
                self@.ledger == self.revealed_tokens@.map_values(|i: RevealedInfo| i@),
                n == shares_of(self@.ledger.subrange(0, k as int), card).len(),
                n <= k,
            decreases self.revealed_tokens@.len() - k,
        {
            proof {
                let next = self@.ledger.subrange(0, k + 1);
                assert(next.drop_last() =~= self@.ledger.subrange(0, k as int));
            }
            if self.revealed_tokens[k].card == card {
                n = n + 1;
            }
            k = k + 1;
        }
        assert(self@.ledger.subrange(0, k as int) =~= self@.ledger);
        n
    }

    /// Whether player `player` has a share for card `card` in the ledger.
    fn holds_share(&self, card: u32, player: u32) -> (r: bool)
        ensures
            r == has_share(self@.ledger, card, player),
    {
        let mut k: usize = 0;
        while k < self.revealed_tokens.len()
            invariant
                0 <= k <= self.revealed_tokens@.len(),
                self@.ledger == self.revealed_tokens@.map_values(|i: RevealedInfo| i@),
                forall|j: int| 0 <= j < k ==> !(self@.ledger[j].0 == card && self@.ledger[j].1 == player),
            decreases self.revealed_tokens@.len() - k,
        {
            if self.revealed_tokens[k].card == card && self.revealed_tokens[k].player == player {
                assert(self@.ledger[k as int].0 == card && self@.ledger[k as int].1 == player);
                return true;
            }
            k = k + 1;
        }
        false
    }

    /// Records `player`'s reveal share for card `index`. Fails `NotReady`
    /// until every player has shuffled and `InvalidState` if `player` is not
    /// on the roster. A second share from the same player for the same card,
    /// or one for a card that has a share from every player already, leaves
    /// the ledger as it is. Proofs are not checked here: the card's owner
    /// checks them when it unmasks.
    pub fn register_revealed_token(
        &mut self,
        index: u32,
        token: RevealToken,
        proof: ProofReveal,
        player: u32,
    ) -> (r: Result<(), GameErrors>)
        requires
            old(self)@.wf(),
        ensures
            final(self)@.wf(),
            !old(self)@.all_shuffled() ==> r == Err::<(), GameErrors>(GameErrors::NotReady),
            old(self)@.all_shuffled() && !roster_has(old(self)@.roster, player) ==> r == Err::<(), GameErrors>(
                GameErrors::InvalidState,
            ),
            old(self)@.all_shuffled() && roster_has(old(self)@.roster, player) ==> r is Ok
                && final(self)@ == (GameView {
                ledger: if has_share(old(self)@.ledger, index, player) || shares_of(old(self)@.ledger, index).len()
                    >= old(self)@.players() {
                    old(self)@.ledger
                } else {
                    old(self)@.ledger.push((index, player, token@, proof@))
                },
                ..old(self)@
            }),
            r is Err ==> final(self)@ == old(self)@,
    {
        if !self.is_all_shuffled() {
            return Err(GameErrors::NotReady);
        }
        if self.find_player(player).is_none() {
            return Err(GameErrors::InvalidState);
        }
        if self.holds_share(index, player) || self.count_shares(index) >= self.config.players() {
            return Ok(());
        }
        let ghost before = self@;
        self.revealed_tokens.push(RevealedInfo { card: index, token, proof, player });
        proof {
            let want = GameView { ledger: before.ledger.push((index, player, token@, proof@)), ..before };
            assert(self@.ledger =~= want.ledger);
            assert(self@ == want);
        }
        Ok(())
    }

    /// The shares for card `card_index` from every player but
    /// `player_index`, the card's owner, who adds its own. Fails
    /// `NotEnoughRevealedTokens` with the number of shares so far until
    /// there is one from every player; the caller may ask again later.
    pub fn revealed_tokens(&self, player_index: u32, card_index: u32) -> (r: Result<Vec<RevealedToken>, GameErrors>)
        requires
            self@.wf(),
        ensures
            shares_of(self@.ledger, card_index).len() < self@.players() ==> r == Err::<Vec<RevealedToken>, GameErrors>(
                GameErrors::NotEnoughRevealedTokens(shares_of(self@.ledger, card_index).len() as u32),
            ),
            shares_of(self@.ledger, card_index).len() >= self@.players() ==> r is Ok
                && r->Ok_0@.map_values(|t: RevealedToken| t@) == released(
                self@.ledger,
                self@.roster,
                card_index,
                player_index,
            ),
    {
        let count = self.count_shares(card_index);
        if count < self.config.players() {
            return Err(GameErrors::NotEnoughRevealedTokens(count as u32));
        }
        let mut r: Vec<RevealedToken> = Vec::new();
        let mut k: usize = 0;
        while k < self.revealed_tokens.len()
            invariant
                0 <= k <= self.revealed_tokens@.len(),
                self@.wf(),
                self@.ledger == self.revealed_tokens@.map_values(|i: RevealedInfo| i@),
                self@.roster == self.players@.map_values(|e: (u32, Surrogate)| (e.0, e.1@)),
                r@.map_values(|t: RevealedToken| t@) == released(
                    self@.ledger.subrange(0, k as int),
                    self@.roster,
                    card_index,
                    player_index,
                ),
            decreases self.revealed_tokens@.len() - k,
        {
            let ghost prev = r@.map_values(|t: RevealedToken| t@);
            proof {
                let next = self@.ledger.subrange(0, k + 1);
                assert(next.drop_last() =~= self@.ledger.subrange(0, k as int));
            }
            let info = &self.revealed_tokens[k];
            if info.card == card_index && info.player != player_index {
                assert(roster_has(self@.roster, self@.ledger[k as int].1));
                let j = self.find_player(info.player).unwrap();
                proof {
                    let w = choose|w: int| 0 <= w < self@.roster.len() && self@.roster[w].0 == info.player;
                    if w != j as int {
                        if w < j as int {
                            assert(self@.roster[w].0 != self@.roster[j as int].0);
                        } else {
                            assert(self@.roster[j as int].0 != self@.roster[w].0);
                        }
                    }
                }
                r.push(RevealedToken {
                    token: info.token.copy(),
                    proof: info.proof.copy(),
                    player: self.players[j].1.pk.copy(),
                });
                assert(r@.map_values(|t: RevealedToken| t@) =~= prev.push(
                    (info.token@, info.proof@, pk_of(self@.roster, info.player)),
                ));
            }
            k = k + 1;
        }
        assert(self@.ledger.subrange(0, k as int) =~= self@.ledger);
        Ok(r)
    }

    /// The deck as masked at setup; fails `NotReady` before setup.
    pub fn initial_deck(&self) -> (r: Result<Vec<MaskedCard>, GameErrors>)
        ensures
            !self@.set_up ==> r == Err::<Vec<MaskedCard>, GameErrors>(GameErrors::NotReady),
            self@.set_up ==> r is Ok && deck_view(r->Ok_0@) == self@.initial_deck,
    {
        match &self.basic {
            Some(b) => Ok(copy_deck(&b.initial_deck)),
            None => Err(GameErrors::NotReady),
        }
    }

    /// The plaintext card mapping; fails `NotReady` before setup.
    pub fn card_mappings(&self) -> (r: Result<CardMapping, GameErrors>)
        ensures
            !self@.set_up ==> r == Err::<CardMapping, GameErrors>(GameErrors::NotReady),
            self@.set_up ==> r is Ok && r->Ok_0@ == self@.mapping,
    {
        match &self.basic {
            Some(b) => Ok(b.initial_cards.copy()),
            None => Err(GameErrors::NotReady),
        }
    }

    /// The aggregate public key; fails `NotReady` before setup.
    pub fn joint_pk(&self) -> (r: Result<AggregatePublicKey, GameErrors>)
        ensures
            !self@.set_up ==> r == Err::<AggregatePublicKey, GameErrors>(GameErrors::NotReady),
            self@.set_up ==> r is Ok && r->Ok_0@ == self@.joint_pk,
    {
        match &self.basic {
            Some(b) => Ok(b.shared_key.copy()),
            None => Err(GameErrors::NotReady),
        }
    }

    /// The encoded scheme parameters, as broadcast to the players.
    pub fn parameters(&self) -> (r: Vec<u8>)
        ensures
            r@ == self@.parameters,
    {
        copy_bytes(&self.parameters.0)
    }

    /// The game's configuration.
    pub fn config(&self) -> (r: &ZkGameConfig)
        ensures
            *r == self@.config,
    {
        &self.config
    }
}

/// Relies on rand::Rng::gen_range with rand::thread_rng: a number drawn
/// uniformly from `0..bound`.
#[verifier::external_body]
fn random_below(bound: usize) -> (r: usize)
    requires
        bound > 0,
    ensures
        r < bound,
{
    rand::Rng::gen_range(&mut rand::thread_rng(), 0..bound)
}

/// A player that has not shuffled yet is on the roster and has not shuffled.
pub proof fn lemma_unshuffled_member(roster: Seq<(u32, SurrogateView)>, chain: Seq<RecordView>, p: u32)
    requires
        unshuffled(roster, chain).contains(p),
    ensures
        roster_has(roster, p),
        !has_shuffled(chain, p),
    decreases roster.len(),
{
    if roster.len() > 0 {
        let rest = unshuffled(roster.drop_last(), chain);
        if rest.contains(p) {
            lemma_unshuffled_member(roster.drop_last(), chain, p);
            let k = choose|k: int| 0 <= k < roster.drop_last().len() && roster.drop_last()[k].0 == p;
            assert(roster[k].0 == p);
        } else {
            assert(roster[roster.len() - 1].0 == p);
        }
    }
}

/// Shares for one card come from the ledger, and from distinct players when
/// the ledger holds one share per card and player.
pub proof fn lemma_shares_of_distinct(ledger: Seq<ShareView>, card: u32)
    requires
        forall|j: int, k: int| 0 <= j < k < ledger.len() ==> !(ledger[j].0 == ledger[k].0 && ledger[j].1 == ledger[k].1),
    ensures
        forall|k: int| 0 <= k < shares_of(ledger, card).len() ==> (#[trigger] shares_of(ledger, card)[k]).0 == card
            && ledger.contains(shares_of(ledger, card)[k]),
        forall|j: int, k: int| 0 <= j < k < shares_of(ledger, card).len() ==>
            (#[trigger] shares_of(ledger, card)[j]).1 != (#[trigger] shares_of(ledger, card)[k]).1,
    decreases ledger.len(),
{
    if ledger.len() > 0 {
        let prev = ledger.drop_last();
        lemma_shares_of_distinct(prev, card);
        let rest = shares_of(prev, card);
        let s = shares_of(ledger, card);
        assert forall|k: int| 0 <= k < rest.len() implies ledger.contains(#[trigger] rest[k]) by {
            let j = choose|j: int| 0 <= j < prev.len() && prev[j] == rest[k];
            assert(ledger[j] == rest[k]);
        }
        if ledger.last().0 == card {
            assert forall|k: int| 0 <= k < rest.len() implies (#[trigger] rest[k]).1 != ledger.last().1 by {
                let j = choose|j: int| 0 <= j < prev.len() && prev[j] == rest[k];
                assert(ledger[j] == rest[k]);
                assert(!(ledger[j].0 == ledger[ledger.len() - 1].0 && ledger[j].1 == ledger[ledger.len() - 1].1));
            }
            assert(ledger.contains(ledger.last())) by {
                assert(ledger[ledger.len() - 1] == ledger.last());
            }
            assert forall|j: int, k: int| 0 <= j < k < s.len() implies (#[trigger] s[j]).1 != (#[trigger] s[k]).1 by {
                if k == s.len() - 1 {
                    assert(s[j] == rest[j]);
                } else {
                    assert(s[j] == rest[j] && s[k] == rest[k]);
                }
            }
        }
    }
}

/// The roster is never larger than the player count.
pub proof fn lemma_roster_within_player_count(g: GameView)
    requires
        g.wf(),
    ensures
        g.roster.len() <= g.players(),
{
}

/// Once set up, the shuffle chain holds between one record and one more
/// than the player count, and every player has shuffled exactly when it
/// reaches that bound.
pub proof fn lemma_shuffle_chain_bounded(g: GameView)
    requires
        g.wf(),
        g.set_up,
    ensures
        1 <= g.chain.len() <= g.players() + 1,
        g.all_shuffled() <==> g.chain.len() == g.players() + 1,
{
}

/// The draw cursor never passes the number of cards.
pub proof fn lemma_draws_within_deck(g: GameView)
    requires
        g.wf(),
    ensures
        g.drawn <= g.cards(),
{
}

/// While a player on the roster has not contributed a share for a card,
/// the card has fewer shares than players, so its shares are withheld.
pub proof fn lemma_missing_share_withholds_card(g: GameView, card: u32, p: u32)
    requires
        g.wf(),
        g.set_up,
        roster_has(g.roster, p),
        !has_share(g.ledger, card, p),
    ensures
        shares_of(g.ledger, card).len() < g.players(),
{
    let s = shares_of(g.ledger, card);
    lemma_shares_of_distinct(g.ledger, card);
    let ps = s.map_values(|x: ShareView| x.1);
    let ids = g.roster.map_values(|e: (u32, SurrogateView)| e.0);
    assert(ps.no_duplicates()) by {
        assert forall|j: int, k: int| 0 <= j < ps.len() && 0 <= k < ps.len() && j != k implies ps[j] != ps[k] by {
            if j < k {
                assert(s[j].1 != s[k].1);
            } else {
                assert(s[k].1 != s[j].1);
            }
        }
    }
    assert(ids.no_duplicates()) by {
        assert forall|j: int, k: int| 0 <= j < ids.len() && 0 <= k < ids.len() && j != k implies ids[j] != ids[k] by {
            if j < k {
                assert(g.roster[j].0 != g.roster[k].0);
            } else {
                assert(g.roster[k].0 != g.roster[j].0);
            }
        }
    }
    ps.unique_seq_to_set();
    ids.unique_seq_to_set();
    let w = choose|w: int| 0 <= w < g.roster.len() && g.roster[w].0 == p;
    assert(ids[w] == p);
    assert(ids.to_set().contains(p));
    assert forall|x: u32| ps.to_set().contains(x) implies ids.to_set().remove(p).contains(x) by {
        let k = choose|k: int| 0 <= k < ps.len() && ps[k] == x;
        assert(s[k].1 == x);
        let j = choose|j: int| 0 <= j < g.ledger.len() && g.ledger[j] == s[k];
        assert(roster_has(g.roster, g.ledger[j].1));
        let r = choose|r: int| 0 <= r < g.roster.len() && g.roster[r].0 == g.ledger[j].1;
        assert(ids[r] == x);
        if x == p {
            assert(g.ledger[j].0 == card && g.ledger[j].1 == p);
        }
    }
    vstd::set_lib::lemma_len_subset(ps.to_set(), ids.to_set().remove(p));
}

/// With nobody on the roster done, every roster player is still to shuffle.
proof fn lemma_unshuffled_empty(roster: Seq<(u32, SurrogateView)>, chain: Seq<RecordView>)
    requires
        unshuffled(roster, chain).len() == 0,
    ensures
        forall|k: int| 0 <= k < roster.len() ==> has_shuffled(chain, #[trigger] roster[k].0),
    decreases roster.len(),
{
    if roster.len() > 0 {
        let rest = unshuffled(roster.drop_last(), chain);
        if !has_shuffled(chain, roster.last().0) {
            assert(unshuffled(roster, chain).len() == rest.len() + 1);
        }
        lemma_unshuffled_empty(roster.drop_last(), chain);
        assert forall|k: int| 0 <= k < roster.len() implies has_shuffled(chain, #[trigger] roster[k].0) by {
            if k < roster.len() - 1 {
                assert(roster.drop_last()[k] == roster[k]);
            }
        }
    }
}

/// Until every player has shuffled, some player on the roster has not: the
/// chain can always be continued.
pub proof fn lemma_someone_left_to_shuffle(g: GameView)
    requires
        g.wf(),
        g.set_up,
        !g.all_shuffled(),
    ensures
        unshuffled(g.roster, g.chain).len() > 0,
{
    if unshuffled(g.roster, g.chain).len() == 0 {
        lemma_unshuffled_empty(g.roster, g.chain);
        let n = (g.chain.len() - 1) as nat;
        let perf = Seq::new(n, |k: int| performer(g.chain[k + 1])->0);
        let ids = g.roster.map_values(|e: (u32, SurrogateView)| e.0);
        assert(ids.no_duplicates()) by {
            assert forall|j: int, k: int| 0 <= j < ids.len() && 0 <= k < ids.len() && j != k implies ids[j] != ids[k] by {
                if j < k {
                    assert(g.roster[j].0 != g.roster[k].0);
                } else {
                    assert(g.roster[k].0 != g.roster[j].0);
                }
            }
        }
        ids.unique_seq_to_set();
        perf.lemma_cardinality_of_set();
        assert forall|x: u32| ids.to_set().contains(x) implies perf.to_set().contains(x) by {
            let k = choose|k: int| 0 <= k < ids.len() && ids[k] == x;
            assert(has_shuffled(g.chain, g.roster[k].0));
            let c = choose|c: int| 0 <= c < g.chain.len() && performer(g.chain[c]) == Some(x);
            assert(c != 0);
            assert(perf[c - 1] == x);
        }
        vstd::set_lib::lemma_len_subset(ids.to_set(), perf.to_set());
    }
}

} // verus!
