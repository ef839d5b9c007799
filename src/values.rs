//! Protocol values in their canonical byte encodings. The group elements,
//! keys and proofs they stand for are produced and checked by the card
//! protocol's cryptography; this crate only stores, compares and routes them.
use vstd::prelude::*;

verus! {

/// Byte-wise equality of two encodings.
pub fn bytes_equal(a: &Vec<u8>, b: &Vec<u8>) -> (r: bool)
    ensures
        r == (a@ == b@),
{
    if a.len() != b.len() {
        return false;
    }
    let mut i: usize = 0;
    while i < a.len()
        invariant
            a@.len() == b@.len(),
            0 <= i <= a@.len(),
            forall|k: int| 0 <= k < i ==> a@[k] == b@[k],
        decreases a@.len() - i,
    {
        if a[i] != b[i] {
            return false;
        }
        i = i + 1;
    }
    assert(a@ =~= b@);
    true
}

/// A fresh vector with the same bytes.
pub fn copy_bytes(a: &Vec<u8>) -> (r: Vec<u8>)
    ensures
        r@ == a@,
{
    let mut r: Vec<u8> = Vec::with_capacity(a.len());
    let mut i: usize = 0;
    while i < a.len()
        invariant
            0 <= i <= a@.len(),
            r@ == a@.subrange(0, i as int),
        decreases a@.len() - i,
    {
        r.push(a[i]);
        i = i + 1;
    }
    assert(r@ =~= a@);
    r
}

/// A plaintext card: an encoded group element that the card mapping assigns
/// to a classic playing card.
#[derive(Clone, Debug)]
pub struct Card(pub Vec<u8>);

/// A card masked under the aggregate key.
#[derive(Clone, Debug)]
pub struct MaskedCard(pub Vec<u8>);

/// One player's partial decryption of a masked card.
#[derive(Clone, Debug)]
pub struct RevealToken(pub Vec<u8>);

/// Proof that a player knows the secret key behind its public key.
#[derive(Clone, Debug)]
pub struct ProofKeyOwnership(pub Vec<u8>);

/// Proof that a reveal token was computed with the player's secret key.
#[derive(Clone, Debug)]
pub struct ProofReveal(pub Vec<u8>);

/// Proof that a deck is a permutation and re-masking of another.
#[derive(Clone, Debug)]
pub struct ProofShuffle(pub Vec<u8>);

/// Proof that a single card was re-masked.
#[derive(Clone, Debug)]
pub struct ProofRemasking(pub Vec<u8>);

/// The scheme parameters generated once per game.
#[derive(Clone, Debug)]
pub struct CardParameters(pub Vec<u8>);

/// A player's public key; the joint key of all players has the same form.
#[derive(Clone, Debug)]
pub struct PlayerPublicKey(pub Vec<u8>);

/// A player's secret key; it never leaves the player's agent.
#[derive(Clone, Debug)]
pub struct PlayerSecretKey(pub Vec<u8>);

/// The joint public key under which every card is masked.
pub type AggregatePublicKey = PlayerPublicKey;

impl View for Card {
    type V = Seq<u8>;

    open spec fn view(&self) -> Seq<u8> {
        self.0@
    }
}

impl View for MaskedCard {
    type V = Seq<u8>;

    open spec fn view(&self) -> Seq<u8> {
        self.0@
    }
}

impl View for RevealToken {
    type V = Seq<u8>;

    open spec fn view(&self) -> Seq<u8> {
        self.0@
    }
}

impl View for ProofKeyOwnership {
    type V = Seq<u8>;

    open spec fn view(&self) -> Seq<u8> {
        self.0@
    }
}

impl View for ProofReveal {
    type V = Seq<u8>;

    open spec fn view(&self) -> Seq<u8> {
        self.0@
    }
}

impl View for ProofShuffle {
    type V = Seq<u8>;

    open spec fn view(&self) -> Seq<u8> {
        self.0@
    }
}

impl View for ProofRemasking {
    type V = Seq<u8>;

    open spec fn view(&self) -> Seq<u8> {
        self.0@
    }
}

impl View for CardParameters {
    type V = Seq<u8>;

    open spec fn view(&self) -> Seq<u8> {
        self.0@
    }
}

impl View for PlayerPublicKey {
    type V = Seq<u8>;

    open spec fn view(&self) -> Seq<u8> {
        self.0@
    }
}

impl View for PlayerSecretKey {
    type V = Seq<u8>;

    open spec fn view(&self) -> Seq<u8> {
        self.0@
    }
}

impl Card {
    pub fn copy(&self) -> (r: Self)
        ensures
            r@ == self@,
    {
        Card(copy_bytes(&self.0))
    }
}

impl MaskedCard {
    pub fn copy(&self) -> (r: Self)
        ensures
            r@ == self@,
    {
        MaskedCard(copy_bytes(&self.0))
    }
}

impl RevealToken {
    pub fn copy(&self) -> (r: Self)
        ensures
            r@ == self@,
    {
        RevealToken(copy_bytes(&self.0))
    }
}

impl ProofKeyOwnership {
    pub fn copy(&self) -> (r: Self)
        ensures
            r@ == self@,
    {
        ProofKeyOwnership(copy_bytes(&self.0))
    }
}

impl ProofReveal {
    pub fn copy(&self) -> (r: Self)
        ensures
            r@ == self@,
    {
        ProofReveal(copy_bytes(&self.0))
    }
}

impl ProofShuffle {
    pub fn copy(&self) -> (r: Self)
        ensures
            r@ == self@,
    {
        ProofShuffle(copy_bytes(&self.0))
    }
}

impl CardParameters {
    pub fn copy(&self) -> (r: Self)
        ensures
            r@ == self@,
    {
        CardParameters(copy_bytes(&self.0))
    }
}

impl PlayerPublicKey {
    pub fn copy(&self) -> (r: Self)
        ensures
            r@ == self@,
    {
        PlayerPublicKey(copy_bytes(&self.0))
    }
}

impl PartialEq for Card {
    fn eq(&self, o: &Card) -> (r: bool) {
        bytes_equal(&self.0, &o.0)
    }
}

impl vstd::std_specs::cmp::PartialEqSpecImpl for Card {
    open spec fn obeys_eq_spec() -> bool {
        true
    }

    open spec fn eq_spec(&self, o: &Card) -> bool {
        self@ == o@
    }
}

impl Eq for Card {}

impl PartialEq for MaskedCard {
    fn eq(&self, o: &MaskedCard) -> (r: bool) {
        bytes_equal(&self.0, &o.0)
    }
}

impl vstd::std_specs::cmp::PartialEqSpecImpl for MaskedCard {
    open spec fn obeys_eq_spec() -> bool {
        true
    }

    open spec fn eq_spec(&self, o: &MaskedCard) -> bool {
        self@ == o@
    }
}

impl Eq for MaskedCard {}

impl PartialEq for RevealToken {
    fn eq(&self, o: &RevealToken) -> (r: bool) {
        bytes_equal(&self.0, &o.0)
    }
}

impl vstd::std_specs::cmp::PartialEqSpecImpl for RevealToken {
    open spec fn obeys_eq_spec() -> bool {
        true
    }

    open spec fn eq_spec(&self, o: &RevealToken) -> bool {
        self@ == o@
    }
}

impl Eq for RevealToken {}

} // verus!
