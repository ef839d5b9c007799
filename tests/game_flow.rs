use zkcards::config::ZkGameConfig;
use zkcards::error::{GameErrors, ProofFailure};
use zkcards::player::{Player, Surrogate};
use zkcards::server::ZkCardGame;
use zkcards::user_card::{CardMapping, ClassicPlayingCard};
use zkcards::values::{
    Card, CardParameters, MaskedCard, PlayerPublicKey, PlayerSecretKey, ProofKeyOwnership,
    ProofReveal, ProofShuffle, RevealToken,
};

fn surrogate(i: u32) -> Surrogate {
    Surrogate {
        name: format!("player-{i}").into_bytes(),
        pk: PlayerPublicKey(vec![1, i as u8]),
        proof_key: ProofKeyOwnership(vec![2, i as u8]),
    }
}

fn plaintexts(count: usize) -> Vec<Card> {
    (0..count).map(|i| Card(vec![7, i as u8])).collect()
}

fn masked(count: usize, round: u8) -> Vec<MaskedCard> {
    (0..count).map(|i| MaskedCard(vec![round, i as u8, 9])).collect()
}

fn params() -> CardParameters {
    CardParameters(vec![42, 43])
}

fn checked_in_game(m: usize, n: usize, players: u32) -> ZkCardGame {
    let mut game = ZkCardGame::new(ZkGameConfig::new(m, n, players as usize), params()).unwrap();
    for i in 0..players {
        game.check_in(i, surrogate(i)).unwrap();
    }
    game
}

fn set_up_game(m: usize, n: usize, players: u32) -> ZkCardGame {
    let mut game = checked_in_game(m, n, players);
    let cards = m * n;
    game.setup(plaintexts(cards), Ok(PlayerPublicKey(vec![5, 5])), masked(cards, 0))
        .unwrap();
    game
}

fn shuffle_all(game: &mut ZkCardGame, cards: usize) -> Vec<u32> {
    let mut order = vec![];
    let mut round = 1u8;
    while let Ok(p) = game.next_shuffle_player() {
        order.push(p);
        game.register_shuffled_deck(masked(cards, round), ProofShuffle(vec![round]), p)
            .unwrap();
        round += 1;
    }
    order
}

#[test]
fn creation_accepts_a_classic_deck() {
    let game = ZkCardGame::new(ZkGameConfig::new(13, 4, 4), params());
    assert!(game.is_ok());
    let game = game.unwrap();
    assert_eq!(game.parameters(), vec![42, 43]);
    assert_eq!(game.config().num_of_cards(), 52);
}

#[test]
fn creation_rejects_bad_configurations() {
    for (m, n, p) in [(13, 5, 4), (0, 4, 4), (13, 0, 4), (13, 4, 0), (usize::MAX, 2, 4)] {
        let r = ZkCardGame::new(ZkGameConfig::new(m, n, p), params());
        assert!(matches!(r, Err(GameErrors::InvalidParameters)), "{m} {n} {p}");
    }
    assert!(ZkCardGame::new(ZkGameConfig::new(1, 1, 1), params()).is_ok());
    assert!(ZkCardGame::new(ZkGameConfig::new(26, 2, 9), params()).is_ok());
}

#[test]
fn config_accessors() {
    let c = ZkGameConfig::new(13, 4, 3);
    assert_eq!((c.m(), c.n(), c.players(), c.num_of_cards()), (13, 4, 3, 52));
    assert!(c.is_valid());
    assert_eq!(ZkGameConfig::new(usize::MAX, 3, 1).num_of_cards(), usize::MAX);
    assert!(!ZkGameConfig::new(usize::MAX, 3, 1).is_valid());
}

#[test]
fn duplicate_and_surplus_check_in_are_rejected() {
    let mut game = ZkCardGame::new(ZkGameConfig::new(13, 4, 2), params()).unwrap();
    assert_eq!(game.check_in(0, surrogate(0)), Ok(()));
    assert_eq!(game.check_in(0, surrogate(0)), Err(GameErrors::DuplicatePlayer));
    assert!(!game.ready_to_shuffle());
    assert_eq!(game.check_in(1, surrogate(1)), Ok(()));
    assert!(game.ready_to_shuffle());
    assert_eq!(game.check_in(2, surrogate(2)), Err(GameErrors::InvalidState));
    assert_eq!(game.key_proof_info().len(), 2);
}

#[test]
fn batch_registration_is_all_or_nothing() {
    let mut game = ZkCardGame::new(ZkGameConfig::new(13, 4, 3), params()).unwrap();
    let r = game.register_players(vec![(0, surrogate(0)), (0, surrogate(0))]);
    assert_eq!(r, Err(GameErrors::DuplicatePlayer));
    assert_eq!(game.key_proof_info().len(), 0);
    let r = game.register_players(vec![(0, surrogate(0)), (1, surrogate(1)), (2, surrogate(2)), (3, surrogate(3))]);
    assert_eq!(r, Err(GameErrors::InvalidState));
    assert_eq!(game.key_proof_info().len(), 0);
    assert_eq!(game.register_players(vec![(0, surrogate(0)), (1, surrogate(1))]), Ok(()));
    assert_eq!(game.register_players(vec![(1, surrogate(1))]), Err(GameErrors::DuplicatePlayer));
    assert_eq!(game.register_players(vec![(2, surrogate(2))]), Ok(()));
    assert!(game.ready_to_shuffle());
    let info = game.key_proof_info();
    assert_eq!(info[2].0 .0, vec![1, 2]);
    assert_eq!(info[2].2, b"player-2".to_vec());
}

#[test]
fn setup_needs_a_full_roster() {
    let mut game = ZkCardGame::new(ZkGameConfig::new(13, 4, 4), params()).unwrap();
    game.check_in(0, surrogate(0)).unwrap();
    let r = game.setup(plaintexts(52), Ok(PlayerPublicKey(vec![5])), masked(52, 0));
    assert_eq!(r, Err(GameErrors::NotReady));
    assert!(!game.is_set_up());
    assert_eq!(game.next_shuffle_player(), Err(GameErrors::NotReady));
    assert!(matches!(game.initial_deck(), Err(GameErrors::NotReady)));
}

#[test]
fn setup_rejects_malformed_decks() {
    let mut game = checked_in_game(13, 4, 2);
    let key = || Ok(PlayerPublicKey(vec![5]));
    assert_eq!(game.setup(plaintexts(51), key(), masked(51, 0)), Err(GameErrors::InvalidState));
    assert_eq!(game.setup(plaintexts(52), key(), masked(50, 0)), Err(GameErrors::InvalidState));
    let mut twice = plaintexts(52);
    twice[3] = Card(vec![7, 0]);
    assert_eq!(game.setup(twice, key(), masked(52, 0)), Err(GameErrors::InvalidState));
    assert!(!game.is_set_up());
    assert_eq!(game.setup(plaintexts(52), key(), masked(52, 0)), Ok(()));
    assert_eq!(game.setup(plaintexts(52), key(), masked(52, 0)), Err(GameErrors::InvalidState));
}

#[test]
fn four_players_shuffle_and_deal_the_whole_deck() {
    let mut game = checked_in_game(13, 4, 4);
    assert!(game.ready_to_shuffle());
    game.setup(plaintexts(52), Ok(PlayerPublicKey(vec![5, 5])), masked(52, 0)).unwrap();
    assert_eq!(game.initial_deck().unwrap(), masked(52, 0));
    assert_eq!(game.latest_deck().unwrap(), masked(52, 0));
    assert_eq!(game.joint_pk().unwrap().0, vec![5, 5]);
    assert!(!game.is_all_shuffled());
    assert_eq!(game.next_card(), Err(GameErrors::NotReady));

    assert_eq!(game.chain_len(), 1);
    let first = game.next_shuffle_player().unwrap();
    game.register_shuffled_deck(masked(52, 1), ProofShuffle(vec![1]), first).unwrap();
    assert_eq!(game.chain_len(), 2);
    assert!(!game.is_all_shuffled());
    let mut order = vec![first];
    let mut round = 2u8;
    while let Ok(p) = game.next_shuffle_player() {
        order.push(p);
        game.register_shuffled_deck(masked(52, round), ProofShuffle(vec![round]), p).unwrap();
        assert_eq!(game.chain_len(), round as usize + 1);
        round += 1;
    }
    assert_eq!(game.chain_len(), 5);
    let mut sorted = order.clone();
    sorted.sort();
    assert_eq!(sorted, vec![0, 1, 2, 3]);
    assert!(game.is_all_shuffled());
    assert_eq!(game.latest_deck().unwrap(), masked(52, 4));
    assert_eq!(game.next_shuffle_player(), Err(GameErrors::AllShuffled));
    assert_eq!(game.current_shuffle_player(), Err(GameErrors::AllShuffled));

    for k in 0..52u32 {
        assert_eq!(game.next_card(), Ok(k));
    }
    assert_eq!(game.next_card(), Err(GameErrors::NoMoreCards));
    assert_eq!(game.next_card(), Err(GameErrors::NoMoreCards));
}

#[test]
fn shuffle_turns_follow_the_nominee() {
    let mut game = set_up_game(2, 2, 3);
    assert_eq!(game.current_shuffle_player(), Err(GameErrors::NotReady));
    let p = game.next_shuffle_player().unwrap();
    assert!(p < 3);
    assert_eq!(game.next_shuffle_player(), Ok(p));
    assert_eq!(game.current_shuffle_player(), Ok(p));
    let other = (p + 1) % 3;
    let r = game.register_shuffled_deck(masked(4, 1), ProofShuffle(vec![1]), other);
    assert_eq!(r, Err(GameErrors::InvalidState));
    let r = game.register_shuffled_deck(masked(3, 1), ProofShuffle(vec![1]), p);
    assert_eq!(r, Err(GameErrors::InvalidState));
    assert_eq!(game.register_shuffled_deck(masked(4, 1), ProofShuffle(vec![1]), p), Ok(()));
    let q = game.next_shuffle_player().unwrap();
    assert_ne!(q, p);
    assert_eq!(game.pick_shuffle_player(0), Ok(q));
}

#[test]
fn pick_is_exact_on_the_draw() {
    let mut game = set_up_game(2, 2, 3);
    assert_eq!(game.pick_shuffle_player(0), Ok(0));
    assert_eq!(game.pick_shuffle_player(4), Ok(1));
    assert_eq!(game.pick_shuffle_player(5), Ok(2));
    let p = game.next_shuffle_player().unwrap();
    game.register_shuffled_deck(masked(4, 1), ProofShuffle(vec![1]), p).unwrap();
    let left: Vec<u32> = (0..3).filter(|i| *i != p).collect();
    assert_eq!(game.pick_shuffle_player(0), Ok(left[0]));
    assert_eq!(game.pick_shuffle_player(3), Ok(left[1]));
}

#[test]
fn forged_ownership_proof_blocks_setup_until_corrected() {
    let mut game = checked_in_game(13, 4, 4);
    let r = game.setup(plaintexts(52), Err(ProofFailure::KeyOwnership), masked(52, 0));
    assert_eq!(r, Err(GameErrors::ProtocolError(ProofFailure::KeyOwnership)));
    assert!(!game.is_set_up());
    assert!(matches!(game.joint_pk(), Err(GameErrors::NotReady)));
    let forged = game.check_out(2).unwrap();
    assert_eq!(forged.name, b"player-2".to_vec());
    assert!(!game.ready_to_shuffle());
    assert_eq!(game.check_out(2).err(), Some(GameErrors::InvalidState));
    game.check_in(2, surrogate(2)).unwrap();
    let r = game.setup(plaintexts(52), Ok(PlayerPublicKey(vec![5])), masked(52, 0));
    assert_eq!(r, Ok(()));
    assert_eq!(game.check_out(1).err(), Some(GameErrors::InvalidState));
}

#[test]
fn tampered_shuffle_is_refused_by_the_receiver() {
    let player = Player::new(
        &b"p".to_vec(),
        PlayerSecretKey(vec![1]),
        PlayerPublicKey(vec![2]),
        ProofKeyOwnership(vec![3]),
    );
    let before = masked(52, 0);
    let after = masked(52, 1);
    let r = player.verify_shuffle(&before, &after, Err(ProofFailure::Shuffle));
    assert_eq!(r, Err(GameErrors::ProtocolError(ProofFailure::Shuffle)));
    let r = player.verify_shuffle(&before, &masked(51, 1), Ok(()));
    assert_eq!(r, Err(GameErrors::ProtocolError(ProofFailure::Shuffle)));
    assert_eq!(player.verify_shuffle(&before, &after, Ok(())), Ok(()));
}

fn share(game: &mut ZkCardGame, card: u32, player: u32) -> Result<(), GameErrors> {
    game.register_revealed_token(
        card,
        RevealToken(vec![30, card as u8, player as u8]),
        ProofReveal(vec![31, player as u8]),
        player,
    )
}

#[test]
fn reveal_waits_for_every_share() {
    let mut game = set_up_game(13, 4, 4);
    assert_eq!(share(&mut game, 0, 1), Err(GameErrors::NotReady));
    shuffle_all(&mut game, 52);
    let dealt = game.next_card().unwrap();
    assert_eq!(dealt, 0);
    assert_eq!(share(&mut game, 0, 1), Ok(()));
    assert_eq!(share(&mut game, 0, 2), Ok(()));
    assert_eq!(share(&mut game, 0, 2), Ok(()));
    assert_eq!(share(&mut game, 0, 9), Err(GameErrors::InvalidState));
    assert_eq!(game.revealed_tokens(0, 0).err(), Some(GameErrors::NotEnoughRevealedTokens(2)));
    assert_eq!(share(&mut game, 0, 3), Ok(()));
    assert_eq!(game.revealed_tokens(0, 0).err(), Some(GameErrors::NotEnoughRevealedTokens(3)));
    assert_eq!(share(&mut game, 0, 0), Ok(()));
    let shares = game.revealed_tokens(0, 0).unwrap();
    assert_eq!(shares.len(), 3);
    let keys: Vec<Vec<u8>> = shares.iter().map(|t| t.player.0.clone()).collect();
    assert_eq!(keys, vec![vec![1, 1], vec![1, 2], vec![1, 3]]);
    assert_eq!(shares[0].token, RevealToken(vec![30, 0, 1]));
    assert_eq!(shares[2].proof.0, vec![31, 3]);
    assert_eq!(game.revealed_tokens(0, 1).err(), Some(GameErrors::NotEnoughRevealedTokens(0)));

    let mapping = game.card_mappings().unwrap();
    let deck = game.latest_deck().unwrap();
    let mut owner = Player::new(
        &b"player-0".to_vec(),
        PlayerSecretKey(vec![9]),
        PlayerPublicKey(vec![1, 0]),
        ProofKeyOwnership(vec![2, 0]),
    );
    owner.receive_card(deck[dealt as usize].clone());
    let opened = owner.peek_at_card(&deck[dealt as usize], Ok(Card(vec![7, 17])), &mapping);
    assert_eq!(opened, Ok(ClassicPlayingCard { value: 4, suite: 1 }));
    assert_eq!(owner.opened_card(0), Some(ClassicPlayingCard { value: 4, suite: 1 }));
}

#[test]
fn peek_reports_missing_and_unknown_cards() {
    let mapping = CardMapping::from_plaintexts(&plaintexts(52)).unwrap();
    let mut owner = Player::new(
        &b"p".to_vec(),
        PlayerSecretKey(vec![9]),
        PlayerPublicKey(vec![1]),
        ProofKeyOwnership(vec![2]),
    );
    let card = MaskedCard(vec![1, 2, 3]);
    let r = owner.peek_at_card(&card, Ok(Card(vec![7, 0])), &mapping);
    assert_eq!(r, Err(GameErrors::CardNotFound));
    owner.receive_card(MaskedCard(vec![0]));
    owner.receive_card(card.clone());
    assert_eq!(owner.card_position(&card), Some(1));
    let r = owner.peek_at_card(&card, Ok(Card(vec![8, 0])), &mapping);
    assert_eq!(r, Err(GameErrors::InvalidCard));
    let r = owner.peek_at_card(&card, Err(ProofFailure::Reveal), &mapping);
    assert_eq!(r, Err(GameErrors::ProtocolError(ProofFailure::Reveal)));
    assert_eq!(owner.opened_card(1), None);
    let r = owner.peek_at_card(&card, Ok(Card(vec![7, 51])), &mapping);
    assert_eq!(r, Ok(ClassicPlayingCard { value: 12, suite: 3 }));
    assert_eq!(owner.opened_card(0), None);
    assert_eq!(owner.num_cards(), 2);
}

#[test]
fn surrogate_projects_public_material() {
    let player = Player::new(
        &b"alice".to_vec(),
        PlayerSecretKey(vec![1]),
        PlayerPublicKey(vec![2]),
        ProofKeyOwnership(vec![3]),
    );
    let s = player.surrogate();
    assert_eq!((s.name, s.pk.0, s.proof_key.0), (b"alice".to_vec(), vec![2], vec![3]));
    let s = player.new_surrogate(ProofKeyOwnership(vec![4]));
    assert_eq!(s.proof_key.0, vec![4]);
    assert_eq!(player.secret_key().0, vec![1]);
    assert_eq!(player.public_key().0, vec![2]);
}
