use zkcards::config::ZkGameConfig;
use zkcards::error::GameErrors;
use zkcards::player::{Player, Surrogate};
use zkcards::protocol::{
    on_dealt, shuffle_turn, unwrap_deck, unwrap_mapping, DealtCard, InitialOrMaskedCard, ProofOrPk,
    S2COp, ShuffleTurn,
};
use zkcards::server::ZkCardGame;
use zkcards::values::{
    Card, CardParameters, MaskedCard, PlayerPublicKey, PlayerSecretKey, ProofKeyOwnership,
    ProofReveal, ProofShuffle, RevealToken,
};

fn agent(i: u32) -> Player {
    Player::new(
        &format!("player-{i}").into_bytes(),
        PlayerSecretKey(vec![0, i as u8]),
        PlayerPublicKey(vec![1, i as u8]),
        ProofKeyOwnership(vec![2, i as u8]),
    )
}

fn masked(count: usize, round: u8) -> Vec<MaskedCard> {
    (0..count).map(|i| MaskedCard(vec![round, i as u8])).collect()
}

#[test]
fn message_driven_round_deals_every_card() {
    let players: Vec<Player> = (0..4).map(agent).collect();
    let mut game = ZkCardGame::new(ZkGameConfig::new(13, 4, 4), CardParameters(vec![1])).unwrap();
    for (i, p) in players.iter().enumerate() {
        let s: Surrogate = p.surrogate();
        game.check_in(i as u32, s).unwrap();
    }
    assert_eq!(game.start_shuffling().err(), Some(GameErrors::NotReady));
    let plain: Vec<Card> = (0..52).map(|i| Card(vec![9, i as u8])).collect();
    game.setup(plain.clone(), Ok(PlayerPublicKey(vec![7])), masked(52, 0)).unwrap();

    let first = game.start_shuffling().unwrap();
    let (mut next, mut deck) = match first {
        S2COp::NextShuffle(Some(p), entries, deck, ProofOrPk::JointPk(k)) => {
            assert_eq!(k.0, vec![7]);
            let mapping = unwrap_mapping(&entries).unwrap();
            assert_eq!(mapping.plaintexts(), plain);
            assert_eq!(deck, masked(52, 0));
            (Some(p), deck)
        }
        other => panic!("unexpected {other:?}"),
    };
    match game.start_shuffling().unwrap() {
        S2COp::NextShuffle(again, ..) => assert_eq!(again, next),
        other => panic!("unexpected {other:?}"),
    }
    let mut seen = vec![];
    let mut round = 1u8;
    while let Some(p) = next {
        assert_eq!(shuffle_turn(p, next), ShuffleTurn::Shuffle);
        assert_eq!(shuffle_turn(p + 1, next), ShuffleTurn::Wait);
        seen.push(p);
        let shuffled = masked(52, round);
        let msg = game.on_shuffled_cards(&deck, shuffled.clone(), ProofShuffle(vec![round])).unwrap();
        match msg {
            S2COp::NextShuffle(n, original, d, ProofOrPk::ProofTwo(pr)) => {
                assert_eq!(unwrap_deck(&original).unwrap(), deck);
                assert_eq!(d, shuffled);
                assert_eq!(pr.0, vec![round]);
                next = n;
                deck = d;
            }
            other => panic!("unexpected {other:?}"),
        }
        round += 1;
    }
    assert_eq!(shuffle_turn(0, None), ShuffleTurn::RequestCards);
    seen.sort();
    assert_eq!(seen, vec![0, 1, 2, 3]);
    assert_eq!(game.chain_len(), 5);
    assert_eq!(game.start_shuffling().err(), Some(GameErrors::InvalidState));
    assert!(game.is_all_shuffled());
    let late = game.on_shuffled_cards(&deck, masked(52, 9), ProofShuffle(vec![9]));
    assert_eq!(late.err(), Some(GameErrors::AllShuffled));

    assert_eq!(game.on_request_cards(7).err(), Some(GameErrors::InvalidState));
    for k in 0..52u32 {
        match game.on_request_cards(k % 4).unwrap() {
            S2COp::ReceiveCard(Some((owner, idx))) => assert_eq!((owner, idx), (k % 4, k)),
            other => panic!("unexpected {other:?}"),
        }
    }
    assert!(matches!(game.on_request_cards(0).unwrap(), S2COp::ReceiveCard(None)));
}

#[test]
fn shares_are_relayed_once_complete() {
    let mut game = ZkCardGame::new(ZkGameConfig::new(1, 2, 2), CardParameters(vec![1])).unwrap();
    for i in 0..2u32 {
        game.check_in(i, agent(i).surrogate()).unwrap();
    }
    assert_eq!(game.on_request_cards(0).err(), Some(GameErrors::NotReady));
    let plain = vec![Card(vec![1]), Card(vec![2])];
    game.setup(plain, Ok(PlayerPublicKey(vec![7])), masked(2, 0)).unwrap();
    game.start_shuffling().unwrap();
    let mut deck = masked(2, 0);
    for round in 1..3u8 {
        match game.on_shuffled_cards(&deck, masked(2, round), ProofShuffle(vec![round])).unwrap() {
            S2COp::NextShuffle(_, _, d, _) => deck = d,
            other => panic!("unexpected {other:?}"),
        }
    }
    assert!(matches!(game.on_request_cards(1).unwrap(), S2COp::ReceiveCard(Some((1, 0)))));
    assert_eq!(on_dealt(0, 1), DealtCard::Reveal);
    assert_eq!(on_dealt(1, 1), DealtCard::Keep);
    game.register_revealed_token(0, RevealToken(vec![5]), ProofReveal(vec![6]), 0).unwrap();
    assert_eq!(game.on_peek_card(1, 0).err(), Some(GameErrors::NotEnoughRevealedTokens(1)));
    game.register_revealed_token(0, RevealToken(vec![8]), ProofReveal(vec![9]), 1).unwrap();
    match game.on_peek_card(1, 0).unwrap() {
        S2COp::RevealedCard(c, tokens) => {
            assert_eq!(c, 0);
            assert_eq!(tokens.len(), 1);
            assert_eq!(tokens[0].token, RevealToken(vec![5]));
            assert_eq!(tokens[0].player.0, vec![1, 0]);
        }
        other => panic!("unexpected {other:?}"),
    }
}

#[test]
fn malformed_announcements_are_refused() {
    let masked_entries = vec![InitialOrMaskedCard::MaskedCard(MaskedCard(vec![1]))];
    assert_eq!(unwrap_mapping(&masked_entries).err(), Some(GameErrors::InvalidState));
    let initial = vec![InitialOrMaskedCard::InitialCard(
        Card(vec![1]),
        zkcards::user_card::ClassicPlayingCard { value: 0, suite: 0 },
    )];
    assert_eq!(unwrap_deck(&initial).err(), Some(GameErrors::InvalidState));
    assert!(unwrap_mapping(&initial).is_ok());
    let misplaced = vec![InitialOrMaskedCard::InitialCard(
        Card(vec![1]),
        zkcards::user_card::ClassicPlayingCard { value: 0, suite: 1 },
    )];
    assert_eq!(unwrap_mapping(&misplaced).err(), Some(GameErrors::InvalidState));
    let twice = vec![
        InitialOrMaskedCard::InitialCard(Card(vec![1]), zkcards::user_card::ClassicPlayingCard { value: 0, suite: 0 }),
        InitialOrMaskedCard::InitialCard(Card(vec![1]), zkcards::user_card::ClassicPlayingCard { value: 0, suite: 1 }),
    ];
    assert_eq!(unwrap_mapping(&twice).err(), Some(GameErrors::InvalidState));
}
