use zkcards::user_card::{all_distinct, encode_cards, CardMapping, ClassicPlayingCard};
use zkcards::values::{bytes_equal, copy_bytes, Card, MaskedCard};

fn cards(count: usize) -> Vec<Card> {
    (0..count).map(|i| Card(vec![3, i as u8, 1])).collect()
}

#[test]
fn encoding_assigns_values_then_suits() {
    let m = encode_cards(&cards(52));
    assert_eq!(m.len(), 52);
    assert_eq!(m.entry(0).1, ClassicPlayingCard { value: 0, suite: 0 });
    assert_eq!(m.entry(5).1, ClassicPlayingCard { value: 1, suite: 1 });
    assert_eq!(m.entry(51).1, ClassicPlayingCard { value: 12, suite: 3 });
    assert_eq!(m.entry(7).0, Card(vec![3, 7, 1]));
}

#[test]
fn lookup_recovers_every_card() {
    let p = cards(52);
    let m = CardMapping::from_plaintexts(&p).unwrap();
    for (i, c) in p.iter().enumerate() {
        let want = ClassicPlayingCard { value: (i / 4) as u8, suite: (i % 4) as u8 };
        assert_eq!(m.get(c), Some(want));
    }
    assert_eq!(m.get(&Card(vec![3, 52, 1])), None);
    assert_eq!(m.get(&Card(vec![])), None);
    assert_eq!(m.plaintexts(), p);
    assert_eq!(m.copy().plaintexts(), p);
}

#[test]
fn mapping_needs_distinct_plaintexts() {
    let mut p = cards(10);
    assert!(all_distinct(&p));
    assert!(all_distinct(&vec![]));
    p[9] = Card(vec![3, 4, 1]);
    assert!(!all_distinct(&p));
    assert!(CardMapping::from_plaintexts(&p).is_none());
}

#[test]
fn byte_encodings_compare_by_content() {
    assert!(bytes_equal(&vec![1, 2], &vec![1, 2]));
    assert!(!bytes_equal(&vec![1, 2], &vec![1, 3]));
    assert!(!bytes_equal(&vec![1, 2], &vec![1, 2, 0]));
    assert!(bytes_equal(&vec![], &vec![]));
    assert_eq!(copy_bytes(&vec![4, 5, 6]), vec![4, 5, 6]);
    assert_eq!(MaskedCard(vec![1]).copy(), MaskedCard(vec![1]));
    assert_ne!(MaskedCard(vec![1]), MaskedCard(vec![2]));
}
