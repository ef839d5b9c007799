//! The per-player agent: key material, the hand of masked cards and the
//! cards opened so far.
use vstd::prelude::*;
use crate::error::{GameErrors, ProofFailure};
use crate::user_card::{lookup, CardMapping, ClassicPlayingCard};
use crate::values::{
    copy_bytes, Card, MaskedCard, PlayerPublicKey, PlayerSecretKey, ProofKeyOwnership,
};

verus! {

/// A player's public identity: name, public key and proof of key ownership.
#[derive(Clone, Debug)]
pub struct Surrogate {
    pub name: Vec<u8>,
    pub pk: PlayerPublicKey,
    pub proof_key: ProofKeyOwnership,
}

impl View for Surrogate {
    type V = (Seq<u8>, Seq<u8>, Seq<u8>);

    open spec fn view(&self) -> (Seq<u8>, Seq<u8>, Seq<u8>) {
        (self.name@, self.pk@, self.proof_key@)
    }
}

impl Surrogate {
    pub fn copy(&self) -> (r: Self)
        ensures
            r@ == self@,
    {
        Surrogate { name: copy_bytes(&self.name), pk: self.pk.copy(), proof_key: self.proof_key.copy() }
    }
}

/// Index of the first card of `hand` equal to `card`, if any.
pub open spec fn position_in(hand: Seq<Seq<u8>>, card: Seq<u8>) -> Option<int> {
    if exists|i: int| 0 <= i < hand.len() && hand[i] == card {
        Some(choose|i: int| 0 <= i < hand.len() && hand[i] == card && forall|k: int| 0 <= k < i ==> hand[k] != card)
    } else {
        None
    }
}

/// One participant of the game.
#[derive(Clone, Debug)]
pub struct Player {
    name: Vec<u8>,
    sk: PlayerSecretKey,
    pk: PlayerPublicKey,
    proof_key: ProofKeyOwnership,
    cards: Vec<MaskedCard>,
    opened_cards: Vec<Option<ClassicPlayingCard>>,
}

impl Player {
    pub closed spec fn spec_name(&self) -> Seq<u8> {
        self.name@
    }

    pub closed spec fn spec_pk(&self) -> Seq<u8> {
        self.pk@
    }

    pub closed spec fn spec_sk(&self) -> Seq<u8> {
        self.sk@
    }

    pub closed spec fn spec_proof_key(&self) -> Seq<u8> {
        self.proof_key@
    }

    /// The masked cards dealt to this player, in the order received.
    pub closed spec fn hand(&self) -> Seq<Seq<u8>> {
        self.cards@.map_values(|c: MaskedCard| c@)
    }

    /// For each card of the hand, its classic card once opened.
    pub closed spec fn opened(&self) -> Seq<Option<ClassicPlayingCard>> {
        self.opened_cards@
    }

    pub open spec fn wf(&self) -> bool {
        self.hand().len() == self.opened().len()
    }

    /// A player with the given key material and an empty hand.
    pub fn new(
        name: &Vec<u8>,
        sk: PlayerSecretKey,
        pk: PlayerPublicKey,
        proof_key: ProofKeyOwnership,
    ) -> (r: Self)
        ensures
            r.wf(),
            r.spec_name() == name@,
            r.spec_sk() == sk@,
            r.spec_pk() == pk@,
            r.spec_proof_key() == proof_key@,
            r.hand().len() == 0,
    {
        let r = Player {
            name: copy_bytes(name),
            sk,
            pk,
            proof_key,
            cards: Vec::new(),
            opened_cards: Vec::new(),
        };
        assert(r.hand() =~= Seq::<Seq<u8>>::empty());
        r
    }

    /// The public projection with a freshly made ownership proof.
    pub fn new_surrogate(&self, proof_key: ProofKeyOwnership) -> (r: Surrogate)
        ensures
            r@ == (self.spec_name(), self.spec_pk(), proof_key@),
    {
        Surrogate { name: copy_bytes(&self.name), pk: self.pk.copy(), proof_key }
    }

    /// The public projection, safe to publish.
    pub fn surrogate(&self) -> (r: Surrogate)
        ensures
            r@ == (self.spec_name(), self.spec_pk(), self.spec_proof_key()),
    {
        Surrogate { name: copy_bytes(&self.name), pk: self.pk.copy(), proof_key: self.proof_key.copy() }
    }

    pub fn public_key(&self) -> (r: &PlayerPublicKey)
        ensures
            r@ == self.spec_pk(),
    {
        &self.pk
    }

    /// The secret key, for the agent's own cryptographic operations.
    pub fn secret_key(&self) -> (r: &PlayerSecretKey)
        ensures
            r@ == self.spec_sk(),
    {
        &self.sk
    }

    pub fn num_cards(&self) -> (r: usize)
        ensures
            r == self.hand().len(),
    {
        self.cards.len()
    }

    /// The classic card of the `i`-th card of the hand, once opened.
    pub fn opened_card(&self, i: usize) -> (r: Option<ClassicPlayingCard>)
        requires
            self.wf(),
            i < self.hand().len(),
        ensures
            r == self.opened()[i as int],
    {
        self.opened_cards[i]
    }

    /// Adds a masked card to the hand, not yet opened.
    pub fn receive_card(&mut self, card: MaskedCard)
        requires
            old(self).wf(),
        ensures
            final(self).wf(),
            final(self).hand() == old(self).hand().push(card@),
            final(self).opened() == old(self).opened().push(None),
            final(self).spec_name() == old(self).spec_name(),
            final(self).spec_pk() == old(self).spec_pk(),
            final(self).spec_sk() == old(self).spec_sk(),
            final(self).spec_proof_key() == old(self).spec_proof_key(),
    {
        self.cards.push(card);
        self.opened_cards.push(None);
        assert(self.hand() =~= old(self).hand().push(card@));
    }

    /// Where `card` stands in the hand, if the player holds it.
    pub fn card_position(&self, card: &MaskedCard) -> (r: Option<usize>)
        ensures
            r matches Some(i) ==> position_in(self.hand(), card@) == Some(i as int)
                && i < self.hand().len() && self.hand()[i as int] == card@,
            r is None ==> position_in(self.hand(), card@) is None,
    {
        let mut i: usize = 0;
        while i < self.cards.len()
            invariant
                0 <= i <= self.cards@.len(),
                self.hand() == self.cards@.map_values(|c: MaskedCard| c@),
                forall|k: int| 0 <= k < i ==> self.hand()[k] != card@,
            decreases self.cards@.len() - i,
        {
            if self.cards[i] == *card {
                proof {
                    let h = self.hand();
                    assert(h[i as int] == card@);
                    let w = choose|w: int| 0 <= w < h.len() && h[w] == card@ && forall|k: int| 0 <= k < w ==> h[k] != card@;
                    if w < i {
                    } else if w > i {
                        assert(h[i as int] != card@);
                    }
                }
                return Some(i);
            }
            i = i + 1;
        }
        None
    }

    /// Opens `card` from the result of unmasking it with every player's
    /// share: fails `CardNotFound` if the card is not in the hand, passes on
    /// a failed unmasking, and fails `InvalidCard` if the plaintext is not a
    /// card of `mapping`. On success the card is recorded as opened.
    pub fn peek_at_card(
        &mut self,
        card: &MaskedCard,
        unmasked: Result<Card, ProofFailure>,
        mapping: &CardMapping,
    ) -> (r: Result<ClassicPlayingCard, GameErrors>)
        requires
            old(self).wf(),
            mapping.wf(),
        ensures
            final(self).wf(),
            final(self).hand() == old(self).hand(),
            final(self).spec_name() == old(self).spec_name(),
            final(self).spec_pk() == old(self).spec_pk(),
            final(self).spec_sk() == old(self).spec_sk(),
            final(self).spec_proof_key() == old(self).spec_proof_key(),
            match position_in(old(self).hand(), card@) {
                None => r == Err::<ClassicPlayingCard, GameErrors>(GameErrors::CardNotFound)
                    && final(self).opened() == old(self).opened(),
                Some(i) => match unmasked {
                    Err(f) => r == Err::<ClassicPlayingCard, GameErrors>(GameErrors::ProtocolError(f))
                        && final(self).opened() == old(self).opened(),
                    Ok(c) => match lookup(mapping@, c@) {
                        None => r == Err::<ClassicPlayingCard, GameErrors>(GameErrors::InvalidCard)
                            && final(self).opened() == old(self).opened(),
                        Some(v) => r == Ok::<ClassicPlayingCard, GameErrors>(v)
                            && final(self).opened() == old(self).opened().update(i, Some(v)),
                    },
                },
            },
    {
        let i = match self.card_position(card) {
            Some(i) => i,
            None => return Err(GameErrors::CardNotFound),
        };
        let plain = match unmasked {
            Ok(c) => c,
            Err(f) => return Err(GameErrors::ProtocolError(f)),
        };
        match mapping.get(&plain) {
            Some(v) => {
                self.opened_cards.set(i, Some(v));
                assert(self.hand() =~= old(self).hand());
                Ok(v)
            },
            None => Err(GameErrors::InvalidCard),
        }
    }

    /// Accepts a shuffled deck only if it has as many cards as the deck it
    /// came from and its shuffle proof verified.
    pub fn verify_shuffle(
        &self,
        original_deck: &Vec<MaskedCard>,
        shuffled_deck: &Vec<MaskedCard>,
        verified: Result<(), ProofFailure>,
    ) -> (r: Result<(), GameErrors>)
        ensures
            original_deck@.len() != shuffled_deck@.len() ==> r == Err::<(), GameErrors>(
                GameErrors::ProtocolError(ProofFailure::Shuffle),
            ),
            original_deck@.len() == shuffled_deck@.len() ==> match verified {
                Ok(_) => r == Ok::<(), GameErrors>(()),
                Err(f) => r == Err::<(), GameErrors>(GameErrors::ProtocolError(f)),
            },
    {
        if original_deck.len() != shuffled_deck.len() {
            return Err(GameErrors::ProtocolError(ProofFailure::Shuffle));
        }
        match verified {
            Ok(_) => Ok(()),
            Err(f) => Err(GameErrors::ProtocolError(f)),
        }
    }
}

} // verus!
