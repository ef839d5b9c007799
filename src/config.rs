use vstd::prelude::*;

verus! {

/// The largest number of cards a game may use: one classic deck.
pub const MAX_CARDS: usize = 52;

/// Shape of a game: `m * n` cards, dealt among `players_num` players.
#[derive(Clone, Copy, Debug, PartialEq, Eq, Structural)]
pub struct ZkGameConfig {
    m: usize,
    n: usize,
    players_num: usize,
}

impl ZkGameConfig {
    pub closed spec fn spec_m(&self) -> nat {
        self.m as nat
    }

    pub closed spec fn spec_n(&self) -> nat {
        self.n as nat
    }

    pub closed spec fn spec_players(&self) -> nat {
        self.players_num as nat
    }

    /// Number of cards in the deck, as an unbounded integer.
    pub open spec fn card_total(&self) -> nat {
        self.spec_m() * self.spec_n()
    }

    /// A configuration a game can be created from.
    pub open spec fn valid(&self) -> bool {
        &&& 0 < self.card_total()
        &&& self.card_total() <= MAX_CARDS
        &&& 0 < self.spec_players()
    }

    pub fn new(m: usize, n: usize, players: usize) -> (r: Self)
        ensures
            r.spec_m() == m,
            r.spec_n() == n,
            r.spec_players() == players,
    {
        ZkGameConfig { m, n, players_num: players }
    }

    pub fn m(&self) -> (r: usize)
        ensures
            r == self.spec_m(),
    {
        self.m
    }

    pub fn n(&self) -> (r: usize)
        ensures
            r == self.spec_n(),
    {
        self.n
    }

    pub fn players(&self) -> (r: usize)
        ensures
            r == self.spec_players(),
    {
        self.players_num
    }

    /// `m * n`, saturated at `usize::MAX`.
    pub fn num_of_cards(&self) -> (r: usize)
        ensures
            self.card_total() <= usize::MAX ==> r == self.card_total(),
            self.card_total() > usize::MAX ==> r == usize::MAX,
    {
        match self.m.checked_mul(self.n) {
            Some(total) => total,
            None => usize::MAX,
        }
    }

    /// Whether a game can be created from this configuration.
    pub fn is_valid(&self) -> (r: bool)
        ensures
            r == self.valid(),
    {
        match self.m.checked_mul(self.n) {
            Some(total) => 0 < total && total <= MAX_CARDS && 0 < self.players_num,
            None => false,
        }
    }
}

} // verus!
