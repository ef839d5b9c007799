use vstd::prelude::*;

verus! {

/// Which zero-knowledge proof failed to verify.
#[derive(Clone, Copy, Debug, PartialEq, Eq, Structural)]
pub enum ProofFailure {
    KeyOwnership,
    Shuffle,
    Reveal,
}

/// Errors returned by the coordinator and the player agents.
#[derive(Clone, Copy, Debug, PartialEq, Eq, Structural)]
pub enum GameErrors {
    /// The configuration admits no game.
    InvalidParameters,
    /// The card is not in the player's hand.
    CardNotFound,
    /// The decrypted value is not a card of the mapping.
    InvalidCard,
    /// A precondition of the request does not hold yet.
    NotReady,
    /// Every player has shuffled the deck.
    AllShuffled,
    /// A proof did not verify.
    ProtocolError(ProofFailure),
    /// A cryptographic operation failed for another reason.
    CryptoError,
    /// Every card of the deck has been drawn.
    NoMoreCards,
    /// Not every player has contributed a share yet; holds how many have.
    NotEnoughRevealedTokens(u32),
    /// A player index checked in twice.
    DuplicatePlayer,
    /// The request does not fit the current state of the game.
    InvalidState,
}

} // verus!
