use zkcards::error::{GameErrors, ProofFailure};
use zkcards::player::Player;
use zkcards::protocol::{DealtCard, InitialOrMaskedCard, ShuffleTurn};
use zkcards::session::PlayerSession;
use zkcards::user_card::ClassicPlayingCard;
use zkcards::values::{Card, MaskedCard, PlayerPublicKey, PlayerSecretKey, ProofKeyOwnership};

fn session(me: u32) -> PlayerSession {
    let p = Player::new(
        &b"p".to_vec(),
        PlayerSecretKey(vec![1]),
        PlayerPublicKey(vec![2, me as u8]),
        ProofKeyOwnership(vec![3]),
    );
    PlayerSession::new(me, p)
}

fn announcement(count: usize) -> Vec<InitialOrMaskedCard> {
    (0..count)
        .map(|i| {
            InitialOrMaskedCard::InitialCard(
                Card(vec![6, i as u8]),
                ClassicPlayingCard { value: (i / 4) as u8, suite: (i % 4) as u8 },
            )
        })
        .collect()
}

fn deck(count: usize, round: u8) -> Vec<MaskedCard> {
    (0..count).map(|i| MaskedCard(vec![round, i as u8])).collect()
}

#[test]
fn session_follows_the_round() {
    let mut s = session(1);
    assert_eq!(s.index(), 1);
    assert_eq!(s.check_shuffle(&deck(8, 0), &deck(8, 1), Ok(())), Err(GameErrors::NotReady));
    assert_eq!(s.on_announcement(&announcement(8), PlayerPublicKey(vec![9])), Ok(()));
    assert_eq!(s.joint_pk().map(|k| k.0.clone()), Some(vec![9]));
    assert_eq!(
        s.on_announcement(&announcement(8), PlayerPublicKey(vec![8])),
        Err(GameErrors::InvalidState)
    );
    assert_eq!(s.joint_pk().map(|k| k.0.clone()), Some(vec![9]));
    assert_eq!(s.check_shuffle(&deck(8, 0), &deck(8, 1), Ok(())), Ok(()));
    assert_eq!(
        s.check_shuffle(&deck(8, 0), &deck(8, 1), Err(ProofFailure::Shuffle)),
        Err(GameErrors::ProtocolError(ProofFailure::Shuffle))
    );
    assert_eq!(s.on_deck(Some(1), &deck(8, 1)), ShuffleTurn::Shuffle);
    assert_eq!(s.on_deck(Some(2), &deck(8, 2)), ShuffleTurn::Wait);
    assert_eq!(s.final_card(0).err(), Some(GameErrors::NotReady));
    assert_eq!(s.on_dealt_card(1, 0).err(), Some(GameErrors::NotReady));
    assert_eq!(s.on_deck(None, &deck(8, 3)), ShuffleTurn::RequestCards);
    assert_eq!(s.final_card(2), Ok(MaskedCard(vec![3, 2])));
    assert_eq!(s.final_card(8).err(), Some(GameErrors::InvalidState));

    let (act, card) = s.on_dealt_card(0, 0).unwrap();
    assert_eq!((act, card), (DealtCard::Reveal, MaskedCard(vec![3, 0])));
    assert_eq!(s.player().num_cards(), 0);
    let (act, card) = s.on_dealt_card(1, 5).unwrap();
    assert_eq!((act, card), (DealtCard::Keep, MaskedCard(vec![3, 5])));
    assert_eq!(s.player().num_cards(), 1);
    assert_eq!(s.on_dealt_card(1, 9).err(), Some(GameErrors::InvalidState));

    assert_eq!(s.open_card(0, Ok(Card(vec![6, 0]))), Err(GameErrors::CardNotFound));
    assert_eq!(s.open_card(5, Ok(Card(vec![6, 99]))), Err(GameErrors::InvalidCard));
    assert_eq!(
        s.open_card(5, Ok(Card(vec![6, 6]))),
        Ok(ClassicPlayingCard { value: 1, suite: 2 })
    );
    assert_eq!(s.player().opened_card(0), Some(ClassicPlayingCard { value: 1, suite: 2 }));
}

#[test]
fn malformed_announcement_changes_nothing() {
    let mut s = session(0);
    let mut bad = announcement(4);
    bad[3] = InitialOrMaskedCard::MaskedCard(MaskedCard(vec![1]));
    assert_eq!(s.on_announcement(&bad, PlayerPublicKey(vec![9])), Err(GameErrors::InvalidState));
    assert!(s.joint_pk().is_none());
    assert_eq!(s.on_deck(None, &deck(4, 1)), ShuffleTurn::RequestCards);
    assert_eq!(s.open_card(0, Ok(Card(vec![6, 0]))), Err(GameErrors::NotReady));
}
