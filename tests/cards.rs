use balatro_predictor::card_data::CardData;
use balatro_predictor::card_suits::CardSuit;
use balatro_predictor::deck::get_deck_ace_high;
use balatro_predictor::faces::CardFace;

#[test]
fn face_values_follow_straight_order_with_ace_and_jack_at_eleven() {
    assert_eq!(CardFace::Two.value(), 2);
    assert_eq!(CardFace::Ten.value(), 10);
    assert_eq!(CardFace::Jack.value(), 11);
    assert_eq!(CardFace::Queen.value(), 12);
    assert_eq!(CardFace::King.value(), 13);
    assert_eq!(CardFace::Ace.value(), 11);
}

#[test]
fn from_value_is_the_deck_mapping() {
    assert_eq!(CardFace::from_value(1), CardFace::Ace);
    assert_eq!(CardFace::from_value(11), CardFace::Ace);
    assert_eq!(CardFace::from_value(12), CardFace::Jack);
    assert_eq!(CardFace::from_value(13), CardFace::Queen);
    assert_eq!(CardFace::from_value(14), CardFace::King);
    assert_eq!(CardFace::from_value(7), CardFace::Seven);
}

#[test]
fn from_index_orders_suits_for_the_deck() {
    assert_eq!(CardSuit::from_index(0), CardSuit::Hearts);
    assert_eq!(CardSuit::from_index(1), CardSuit::Diamonds);
    assert_eq!(CardSuit::from_index(2), CardSuit::Clubs);
    assert_eq!(CardSuit::from_index(3), CardSuit::Spades);
}

#[test]
fn defaults_are_clubs_and_ace() {
    assert_eq!(CardSuit::default(), CardSuit::Clubs);
    assert_eq!(CardFace::default(), CardFace::Ace);
    let d = CardData::default();
    assert_eq!(d.card_suit, CardSuit::Clubs);
    assert_eq!(d.card_face, CardFace::Ace);
}

#[test]
fn ace_and_face_card_tests() {
    let ace = CardData { card_suit: CardSuit::Spades, card_face: CardFace::Ace };
    let jack = CardData { card_suit: CardSuit::Spades, card_face: CardFace::Jack };
    let ten = CardData { card_suit: CardSuit::Spades, card_face: CardFace::Ten };
    assert!(ace.is_ace());
    assert!(!ace.is_face_card());
    assert!(jack.is_face_card());
    assert!(!jack.is_ace());
    assert!(!ten.is_face_card());
    assert!(CardData { card_suit: CardSuit::Hearts, card_face: CardFace::King }.is_face_card());
    assert!(CardData { card_suit: CardSuit::Hearts, card_face: CardFace::Queen }.is_face_card());
}

#[test]
fn deck_holds_each_card_once_in_order() {
    let deck = get_deck_ace_high();
    assert_eq!(deck.len(), 52);
    assert_eq!(deck[0], CardData { card_suit: CardSuit::Hearts, card_face: CardFace::Two });
    assert_eq!(deck[9], CardData { card_suit: CardSuit::Hearts, card_face: CardFace::Ace });
    assert_eq!(deck[10], CardData { card_suit: CardSuit::Hearts, card_face: CardFace::Jack });
    assert_eq!(deck[12], CardData { card_suit: CardSuit::Hearts, card_face: CardFace::King });
    assert_eq!(deck[13], CardData { card_suit: CardSuit::Diamonds, card_face: CardFace::Two });
    assert_eq!(deck[51], CardData { card_suit: CardSuit::Spades, card_face: CardFace::King });
    for i in 0..52 {
        for j in (i + 1)..52 {
            assert_ne!(deck[i], deck[j]);
        }
    }
}
