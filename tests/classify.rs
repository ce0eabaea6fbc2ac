use balatro_predictor::card_data::CardData;
use balatro_predictor::card_suits::CardSuit;
use balatro_predictor::faces::CardFace;
use balatro_predictor::hands::{
    count_faces, count_suits, has_flush, has_four_of_a_kind, has_full_house, has_pair,
    has_royal_flush, has_straight, has_straight_flush, has_three_of_a_kind, has_two_pair,
};

fn card(s: CardSuit, f: CardFace) -> CardData {
    CardData { card_suit: s, card_face: f }
}

use balatro_predictor::card_suits::CardSuit::{Clubs, Diamonds, Hearts, Spades};
use balatro_predictor::faces::CardFace::{
    Ace, Five, Four, Jack, King, Nine, Queen, Seven, Six, Ten, Three, Two,
};

#[test]
fn counts_by_face_and_suit() {
    let cards = vec![card(Clubs, Two), card(Hearts, Two), card(Hearts, Ace), card(Spades, King)];
    let faces = count_faces(&cards);
    assert_eq!(faces.len(), 13);
    assert_eq!(faces[0], 2);
    assert_eq!(faces[12], 1);
    assert_eq!(faces[11], 1);
    assert_eq!(faces[5], 0);
    let suits = count_suits(&cards);
    assert_eq!(suits, vec![1, 0, 2, 1]);
}

#[test]
fn pair_predicates() {
    let one_pair = vec![card(Clubs, Two), card(Diamonds, Two), card(Hearts, Five), card(Spades, Nine), card(Clubs, King)];
    assert!(has_pair(&one_pair));
    assert!(!has_two_pair(&one_pair));
    assert!(!has_three_of_a_kind(&one_pair));
    let four = vec![card(Clubs, Two), card(Diamonds, Two), card(Hearts, Two), card(Spades, Two), card(Clubs, King)];
    assert!(has_four_of_a_kind(&four));
    assert!(has_three_of_a_kind(&four));
    // one face held four times is one pair, not two
    assert!(!has_two_pair(&four));
    assert!(!has_full_house(&four));
    let two_pair = vec![card(Clubs, Two), card(Diamonds, Two), card(Hearts, Nine), card(Spades, Nine), card(Clubs, King)];
    assert!(has_two_pair(&two_pair));
    let full = vec![card(Clubs, Two), card(Diamonds, Two), card(Hearts, Two), card(Spades, Nine), card(Clubs, Nine)];
    assert!(has_full_house(&full));
    let trips = vec![card(Clubs, Two), card(Diamonds, Two), card(Hearts, Two), card(Spades, Nine), card(Clubs, King)];
    assert!(!has_full_house(&trips));
}

#[test]
fn straight_predicate() {
    let run = vec![card(Clubs, Three), card(Diamonds, Four), card(Hearts, Five), card(Spades, Six), card(Clubs, Seven)];
    assert!(has_straight(&run));
    let low = vec![card(Clubs, Ace), card(Diamonds, Two), card(Hearts, Three), card(Spades, Four), card(Clubs, Five)];
    assert!(has_straight(&low));
    // Jack shares the Ace's value, so it closes the low straight too
    let jack_low = vec![card(Clubs, Jack), card(Diamonds, Two), card(Hearts, Three), card(Spades, Four), card(Clubs, Five)];
    assert!(has_straight(&jack_low));
    // Ten, Jack, Queen, King, Ace gives only four distinct values
    let broadway = vec![card(Clubs, Ten), card(Diamonds, Jack), card(Hearts, Queen), card(Spades, King), card(Clubs, Ace)];
    assert!(!has_straight(&broadway));
    let short = vec![card(Clubs, Three), card(Diamonds, Four), card(Hearts, Five), card(Spades, Six)];
    assert!(!has_straight(&short));
}

#[test]
fn suited_predicates() {
    let flush = vec![card(Hearts, Two), card(Hearts, Five), card(Hearts, Nine), card(Hearts, King), card(Hearts, Three)];
    assert!(has_flush(&flush));
    assert!(!has_straight_flush(&flush));
    let sf = vec![card(Hearts, Three), card(Hearts, Four), card(Hearts, Five), card(Hearts, Six), card(Hearts, Seven)];
    assert!(has_straight_flush(&sf));
    let mixed = vec![card(Hearts, Three), card(Hearts, Four), card(Hearts, Five), card(Hearts, Six), card(Clubs, Seven), card(Hearts, King)];
    assert!(!has_straight_flush(&mixed));
    let royal = vec![card(Hearts, Ten), card(Hearts, Jack), card(Hearts, Queen), card(Hearts, King), card(Hearts, Ace)];
    assert!(has_royal_flush(&royal));
    assert!(!has_straight_flush(&royal));
    let off = vec![card(Hearts, Ten), card(Hearts, Jack), card(Hearts, Queen), card(Hearts, King), card(Clubs, Ace)];
    assert!(!has_royal_flush(&off));
}
