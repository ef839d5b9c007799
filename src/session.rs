//! One player's view of a running game: what it has learned from the
//! coordinator's messages, and the rules it follows on each of them.
use vstd::prelude::*;
use crate::error::{GameErrors, ProofFailure};
use crate::player::{position_in, Player};
use crate::protocol::{on_dealt, shuffle_turn, shuffle_turn_spec, unwrap_mapping, wraps_mapping, DealtCard, InitialOrMaskedCard, ShuffleTurn};
use crate::server::{copy_deck, deck_view, DeckView};
use crate::user_card::{cards_distinct, encoding_of, lookup, CardMapping, ClassicPlayingCard};
use crate::config::MAX_CARDS;
use crate::values::{AggregatePublicKey, Card, MaskedCard};

verus! {

/// A player together with the game context it has received.
pub struct PlayerSession {
    me: u32,
    player: Player,
    joint_pk: Option<AggregatePublicKey>,
    mapping: Option<CardMapping>,
    final_deck: Option<Vec<MaskedCard>>,
}

impl PlayerSession {
    pub closed spec fn spec_me(&self) -> u32 {
        self.me
    }

    pub closed spec fn agent(&self) -> Player {
        self.player
    }

    /// The joint key, once announced.
    pub closed spec fn key(&self) -> Option<Seq<u8>> {
        match self.joint_pk {
            Some(k) => Some(k@),
            None => None,
        }
    }

    /// The card mapping, once announced.
    pub closed spec fn spec_mapping(&self) -> Option<Seq<(Seq<u8>, ClassicPlayingCard)>> {
        match self.mapping {
            Some(m) => Some(m@),
            None => None,
        }
    }

    /// The final deck, once every player has shuffled.
    pub closed spec fn deck(&self) -> Option<DeckView> {
        match self.final_deck {
            Some(d) => Some(deck_view(d@)),
            None => None,
        }
    }

    pub closed spec fn wf(&self) -> bool {
        &&& self.player.wf()
        &&& self.mapping matches Some(m) ==> m.wf()
        &&& self.mapping is Some <==> self.joint_pk is Some
    }

    /// Player `me` before any announcement.
    pub fn new(me: u32, player: Player) -> (r: Self)
        requires
            player.wf(),
        ensures
            r.wf(),
            r.spec_me() == me,
            r.agent() == player,
            r.key() is None,
            r.spec_mapping() is None,
            r.deck() is None,
    {
        PlayerSession { me, player, joint_pk: None, mapping: None, final_deck: None }
    }

    pub fn index(&self) -> (r: u32)
        ensures
            r == self.spec_me(),
    {
        self.me
    }

    pub fn player(&self) -> (r: &Player)
        ensures
            *r == self.agent(),
    {
        &self.player
    }

    pub fn joint_pk(&self) -> (r: Option<&AggregatePublicKey>)
        ensures
            match self.key() {
                Some(k) => r matches Some(x) && x@ == k,
                None => r is None,
            },
    {
        self.joint_pk.as_ref()
    }

    /// Takes in the announcement that opens the shuffle round: the card
    /// mapping and the joint key. Fails `InvalidState` if a key was announced
    /// already or the mapping is malformed; then nothing changes.
    pub fn on_announcement(&mut self, entries: &Vec<InitialOrMaskedCard>, key: AggregatePublicKey) -> (r: Result<(), GameErrors>)
        requires
            old(self).wf(),
        ensures
            final(self).wf(),
            final(self).spec_me() == old(self).spec_me(),
            final(self).agent() == old(self).agent(),
            final(self).deck() == old(self).deck(),
            old(self).key() is Some ==> r == Err::<(), GameErrors>(GameErrors::InvalidState),
            r is Err ==> final(self).key() == old(self).key() && final(self).spec_mapping() == old(self).spec_mapping(),
            r is Ok ==> final(self).key() == Some(key@) && (final(self).spec_mapping() matches Some(m) && wraps_mapping(
                entries@,
                m,
            )),
            old(self).key() is None && (exists|p: Seq<Card>| p.len() <= MAX_CARDS && cards_distinct(p) && wraps_mapping(
                entries@,
                encoding_of(p),
            )) ==> r is Ok,
    {
        if self.joint_pk.is_some() {
            return Err(GameErrors::InvalidState);
        }
        let m = match unwrap_mapping(entries) {
            Ok(m) => m,
            Err(e) => return Err(e),
        };
        self.mapping = Some(m);
        self.joint_pk = Some(key);
        Ok(())
    }

    /// Decides whether a deck passed on by the coordinator is accepted:
    /// `NotReady` before the joint key is known, else as
    /// `Player::verify_shuffle` decides from the proof's verdict.
    pub fn check_shuffle(
        &self,
        original: &Vec<MaskedCard>,
        shuffled: &Vec<MaskedCard>,
        verified: Result<(), ProofFailure>,
    ) -> (r: Result<(), GameErrors>)
        requires
            self.wf(),
        ensures
            self.key() is None ==> r == Err::<(), GameErrors>(GameErrors::NotReady),
            self.key() is Some && original@.len() != shuffled@.len() ==> r == Err::<(), GameErrors>(
                GameErrors::ProtocolError(ProofFailure::Shuffle),
            ),
            self.key() is Some && original@.len() == shuffled@.len() ==> match verified {
                Ok(_) => r == Ok::<(), GameErrors>(()),
                Err(f) => r == Err::<(), GameErrors>(GameErrors::ProtocolError(f)),
            },
    {
        if self.joint_pk.is_none() {
            return Err(GameErrors::NotReady);
        }
        self.player.verify_shuffle(original, shuffled, verified)
    }

    /// The player's turn on an accepted deck; once nobody is left to
    /// shuffle, the deck is final and is kept.
    pub fn on_deck(&mut self, next: Option<u32>, deck: &Vec<MaskedCard>) -> (r: ShuffleTurn)
        requires
            old(self).wf(),
        ensures
            final(self).wf(),
            r == shuffle_turn_spec(old(self).spec_me(), next),
            final(self).spec_me() == old(self).spec_me(),
            final(self).agent() == old(self).agent(),
            final(self).key() == old(self).key(),
            final(self).spec_mapping() == old(self).spec_mapping(),
            next is None ==> final(self).deck() == Some(deck_view(deck@)),
            next is Some ==> final(self).deck() == old(self).deck(),
    {
        let turn = shuffle_turn(self.me, next);
        if next.is_none() {
            self.final_deck = Some(copy_deck(deck));
        }
        turn
    }

    /// Card `index` of the final deck: `NotReady` before the deck is final,
    /// `InvalidState` past its end.
    pub fn final_card(&self, index: u32) -> (r: Result<MaskedCard, GameErrors>)
        ensures
            self.deck() is None ==> r == Err::<MaskedCard, GameErrors>(GameErrors::NotReady),
            self.deck() matches Some(d) ==> if index < d.len() {
                r matches Ok(c) && c@ == d[index as int]
            } else {
                r == Err::<MaskedCard, GameErrors>(GameErrors::InvalidState)
            },
    {
        match &self.final_deck {
            None => Err(GameErrors::NotReady),
            Some(d) => {
                if (index as usize) < d.len() {
                    Ok(d[index as usize].copy())
                } else {
                    Err(GameErrors::InvalidState)
                }
            },
        }
    }

    /// Card `index` was dealt to `owner`: the player's own card goes into its
    /// hand; for another player's card it owes a reveal share. Returns the
    /// card with the decision; fails as `final_card` does.
    pub fn on_dealt_card(&mut self, owner: u32, index: u32) -> (r: Result<(DealtCard, MaskedCard), GameErrors>)
        requires
            old(self).wf(),
        ensures
            final(self).wf(),
            final(self).spec_me() == old(self).spec_me(),
            final(self).key() == old(self).key(),
            final(self).spec_mapping() == old(self).spec_mapping(),
            final(self).deck() == old(self).deck(),
            old(self).deck() is None ==> r == Err::<(DealtCard, MaskedCard), GameErrors>(GameErrors::NotReady),
            old(self).deck() matches Some(d) && index >= d.len() ==> r == Err::<(DealtCard, MaskedCard), GameErrors>(
                GameErrors::InvalidState,
            ),
            r is Err ==> final(self).agent() == old(self).agent(),
            old(self).deck() is Some && index < old(self).deck()->0.len() ==> (r matches Ok((act, c)) && c@
                == old(self).deck()->0[index as int] && act == (if owner == old(self).spec_me() {
                DealtCard::Keep
            } else {
                DealtCard::Reveal
            }) && (act == DealtCard::Reveal ==> final(self).agent() == old(self).agent()) && (act == DealtCard::Keep
                ==> final(self).agent().hand() == old(self).agent().hand().push(c@) && final(self).agent().opened()
                == old(self).agent().opened().push(None))),
    {
        let card = match self.final_card(index) {
            Ok(c) => c,
            Err(e) => return Err(e),
        };
        let act = on_dealt(self.me, owner);
        match act {
            DealtCard::Keep => {
                self.player.receive_card(card.copy());
            },
            DealtCard::Reveal => {},
        }
        Ok((act, card))
    }

    /// Opens card `index` of the final deck from the result of unmasking
    /// it: `NotReady` before the deck is final or the mapping is known,
    /// `InvalidState` past the deck's end, else as `Player::peek_at_card`.
    pub fn open_card(&mut self, index: u32, unmasked: Result<Card, ProofFailure>) -> (r: Result<ClassicPlayingCard, GameErrors>)
        requires
            old(self).wf(),
        ensures
            final(self).wf(),
            final(self).spec_me() == old(self).spec_me(),
            final(self).key() == old(self).key(),
            final(self).spec_mapping() == old(self).spec_mapping(),
            final(self).deck() == old(self).deck(),
            final(self).agent().hand() == old(self).agent().hand(),
            old(self).deck() is None || old(self).spec_mapping() is None ==> r == Err::<ClassicPlayingCard, GameErrors>(
                GameErrors::NotReady,
            ),
            r is Err ==> final(self).agent().opened() == old(self).agent().opened(),
            old(self).deck() is Some && old(self).spec_mapping() is Some ==> if index >= old(self).deck()->0.len() {
                r == Err::<ClassicPlayingCard, GameErrors>(GameErrors::InvalidState)
            } else {
                match position_in(old(self).agent().hand(), old(self).deck()->0[index as int]) {
                    None => r == Err::<ClassicPlayingCard, GameErrors>(GameErrors::CardNotFound),
                    Some(i) => match unmasked {
                        Err(f) => r == Err::<ClassicPlayingCard, GameErrors>(GameErrors::ProtocolError(f)),
                        Ok(c) => match lookup(old(self).spec_mapping()->0, c@) {
                            None => r == Err::<ClassicPlayingCard, GameErrors>(GameErrors::InvalidCard),
                            Some(v) => r == Ok::<ClassicPlayingCard, GameErrors>(v)
                                && final(self).agent().opened() == old(self).agent().opened().update(i, Some(v)),
                        },
                    },
                }
            },
    {
        if self.final_deck.is_none() || self.mapping.is_none() {
            return Err(GameErrors::NotReady);
        }
        let card = match self.final_card(index) {
            Ok(c) => c,
            Err(e) => return Err(e),
        };
        let mapping = self.mapping.as_ref().unwrap();
        self.player.peek_at_card(&card, unmasked, mapping)
    }
}

} // verus!
