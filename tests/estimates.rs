use balatro_predictor::card_data::CardData;
use balatro_predictor::card_suits::CardSuit;
use balatro_predictor::card_suits::CardSuit::{Clubs, Diamonds, Hearts, Spades};
use balatro_predictor::deck::get_deck_ace_high;
use balatro_predictor::faces::CardFace::{
    Ace, Eight, Five, Four, Jack, King, Nine, Queen, Seven, Six, Ten, Three, Two,
};
use balatro_predictor::faces::CardFace;
use balatro_predictor::odds::Odds;
use balatro_predictor::predictor::{
    estimate_flush, estimate_four_of_a_kind, estimate_full_house, estimate_high_card,
    estimate_pair, estimate_royal_flush, estimate_straight, estimate_straight_flush,
    estimate_three_of_a_kind, estimate_two_pair, HandCategory, PredictError,
};

type Estimator = fn(&Vec<CardData>, Option<&Vec<CardData>>) -> Result<Odds, PredictError>;

const ALL: [(HandCategory, Estimator); 10] = [
    (HandCategory::HighCard, estimate_high_card),
    (HandCategory::Pair, estimate_pair),
    (HandCategory::TwoPair, estimate_two_pair),
    (HandCategory::ThreeOfAKind, estimate_three_of_a_kind),
    (HandCategory::Straight, estimate_straight),
    (HandCategory::Flush, estimate_flush),
    (HandCategory::FullHouse, estimate_full_house),
    (HandCategory::FourOfAKind, estimate_four_of_a_kind),
    (HandCategory::StraightFlush, estimate_straight_flush),
    (HandCategory::RoyalFlush, estimate_royal_flush),
];

fn card(s: CardSuit, f: CardFace) -> CardData {
    CardData { card_suit: s, card_face: f }
}

fn odds(num: u64, den: u64) -> Result<Odds, PredictError> {
    Ok(Odds { num, den })
}

fn one() -> Result<Odds, PredictError> {
    odds(1, 1)
}

fn value(r: Result<Odds, PredictError>) -> f64 {
    let o = r.unwrap();
    o.num as f64 / o.den as f64
}

fn is_zero(r: Result<Odds, PredictError>) -> bool {
    r.unwrap().num == 0
}

fn plain_hand() -> Vec<CardData> {
    vec![card(Clubs, Two), card(Diamonds, Five), card(Hearts, Nine), card(Spades, Jack), card(Clubs, King)]
}

fn one_pair_hand() -> Vec<CardData> {
    vec![card(Clubs, Two), card(Diamonds, Two), card(Hearts, Five), card(Spades, Nine), card(Clubs, King)]
}

#[test]
fn short_hands_fail_for_every_category() {
    let hand = vec![card(Clubs, Ace), card(Diamonds, King), card(Hearts, Queen)];
    for (category, estimator) in ALL {
        assert_eq!(estimator(&hand, None), Err(PredictError::InsufficientCards(category)));
        assert_eq!(estimator(&hand, Some(&plain_hand())), Err(PredictError::InsufficientCards(category)));
    }
    let four = vec![card(Clubs, Two), card(Diamonds, Two), card(Hearts, Two), card(Spades, Two)];
    assert_eq!(estimate_four_of_a_kind(&four, None), Err(PredictError::InsufficientCards(HandCategory::FourOfAKind)));
    assert_eq!(estimate_pair(&vec![], None), Err(PredictError::InsufficientCards(HandCategory::Pair)));
}

#[test]
fn made_hands_are_certain() {
    let made: [(Estimator, Vec<CardData>); 9] = [
        (estimate_pair, one_pair_hand()),
        (estimate_two_pair, vec![card(Clubs, Two), card(Diamonds, Two), card(Hearts, Nine), card(Spades, Nine), card(Clubs, King)]),
        (estimate_three_of_a_kind, vec![card(Clubs, Two), card(Diamonds, Two), card(Hearts, Two), card(Spades, Nine), card(Clubs, King)]),
        (estimate_straight, vec![card(Clubs, Three), card(Diamonds, Four), card(Hearts, Five), card(Spades, Six), card(Clubs, Seven)]),
        (estimate_flush, vec![card(Hearts, Two), card(Hearts, Five), card(Hearts, Nine), card(Hearts, King), card(Hearts, Three)]),
        (estimate_full_house, vec![card(Clubs, Two), card(Diamonds, Two), card(Hearts, Two), card(Spades, Nine), card(Clubs, Nine)]),
        (estimate_four_of_a_kind, vec![card(Clubs, Two), card(Diamonds, Two), card(Hearts, Two), card(Spades, Two), card(Clubs, Nine)]),
        (estimate_straight_flush, vec![card(Hearts, Three), card(Hearts, Four), card(Hearts, Five), card(Hearts, Six), card(Hearts, Seven)]),
        (estimate_royal_flush, vec![card(Hearts, Ten), card(Hearts, Jack), card(Hearts, Queen), card(Hearts, King), card(Hearts, Ace)]),
    ];
    for (estimator, hand) in made.iter() {
        assert_eq!(estimator(hand, None), one());
    }
}

#[test]
fn better_made_hands_rule_out_lower_categories() {
    let flush = vec![card(Hearts, Two), card(Hearts, Five), card(Hearts, Nine), card(Hearts, King), card(Hearts, Three)];
    assert!(is_zero(estimate_high_card(&flush, None)));
    assert!(is_zero(estimate_pair(&flush, None)));
    assert!(is_zero(estimate_two_pair(&flush, None)));
    assert!(is_zero(estimate_three_of_a_kind(&flush, None)));
    assert!(is_zero(estimate_straight(&flush, None)));
    assert!(is_zero(estimate_high_card(&one_pair_hand(), None)));
    let sf = vec![card(Hearts, Three), card(Hearts, Four), card(Hearts, Five), card(Hearts, Six), card(Hearts, Seven)];
    assert!(is_zero(estimate_four_of_a_kind(&sf, None)));
    assert!(is_zero(estimate_full_house(&sf, None)));
    let royal = vec![card(Hearts, Ten), card(Hearts, Jack), card(Hearts, Queen), card(Hearts, King), card(Hearts, Ace)];
    assert!(is_zero(estimate_straight_flush(&royal, None)));
    let four = vec![card(Clubs, Two), card(Diamonds, Two), card(Hearts, Two), card(Spades, Two), card(Clubs, Nine)];
    assert!(is_zero(estimate_full_house(&four, None)));
    assert!(is_zero(estimate_two_pair(&four, None)));
}

#[test]
fn own_category_wins_over_a_better_one() {
    // two pair also holds a pair: the pair estimate is one, not zero
    let two_pair = vec![card(Clubs, Two), card(Diamonds, Two), card(Hearts, Nine), card(Spades, Nine), card(Clubs, King)];
    assert_eq!(estimate_pair(&two_pair, None), one());
}

#[test]
fn estimates_stay_within_zero_and_one() {
    let deck: Vec<CardData> = get_deck_ace_high().to_vec();
    let hearts: Vec<CardData> = deck.iter().copied().filter(|c| c.card_suit == Hearts).collect();
    let same_face = vec![card(Clubs, Two); 7];
    let adversarial = vec![deck.clone(), hearts, same_face, plain_hand(), one_pair_hand()];
    for hand in adversarial.iter() {
        for (_, estimator) in ALL {
            for discard in [None, Some(&deck)] {
                let o = estimator(hand, discard).unwrap();
                assert!(o.den > 0);
                assert!(o.num <= o.den);
            }
        }
    }
}

#[test]
fn full_deck_makes_every_category() {
    let deck: Vec<CardData> = get_deck_ace_high().to_vec();
    for (category, estimator) in ALL {
        if category == HandCategory::HighCard {
            assert!(is_zero(estimator(&deck, None)));
        } else {
            assert_eq!(estimator(&deck, None), one());
        }
    }
}

#[test]
fn estimates_are_repeatable() {
    let hand = plain_hand();
    let discard = vec![card(Hearts, Three)];
    for (_, estimator) in ALL {
        assert_eq!(estimator(&hand, Some(&discard)), estimator(&hand, Some(&discard)));
        assert_eq!(estimator(&hand, None), estimator(&hand, None));
    }
}

#[test]
fn empty_discard_is_no_discard() {
    let empty: Vec<CardData> = vec![];
    for hand in [plain_hand(), one_pair_hand()] {
        for (_, estimator) in ALL {
            assert_eq!(estimator(&hand, Some(&empty)), estimator(&hand, None));
        }
    }
}

#[test]
fn one_pair_hand_odds() {
    let hand = one_pair_hand();
    assert_eq!(estimate_pair(&hand, None), one());
    assert!(is_zero(estimate_high_card(&hand, None)));
    let two = value(estimate_two_pair(&hand, None));
    assert!(two < 1.0 && two >= 0.0);
    // singles Five, Nine and King have three cards each left out of 47
    assert_eq!(estimate_two_pair(&hand, None), odds(9, 47));
}

#[test]
fn open_ended_run_odds() {
    let hand = vec![card(Clubs, Three), card(Diamonds, Four), card(Hearts, Five), card(Spades, Six), card(Clubs, Eight)];
    // the run 3-4-5-6 is completed by any Two or Seven: eight cards of 47
    assert_eq!(estimate_straight(&hand, None), odds(8, 47));
    assert!((value(estimate_straight(&hand, None)) - 8.0 / 47.0).abs() < 1e-9);
}

#[test]
fn mixed_suit_royal_faces_give_no_royal_odds() {
    let hand = vec![card(Clubs, Ten), card(Diamonds, Jack), card(Hearts, Queen), card(Spades, King), card(Clubs, Two)];
    assert!(is_zero(estimate_royal_flush(&hand, None)));
}

#[test]
fn discard_completes_low_straight() {
    let hand = vec![card(Clubs, Ace), card(Clubs, Two), card(Clubs, Three), card(Clubs, Four), card(Diamonds, Six)];
    let discard = vec![card(Diamonds, Five)];
    assert_eq!(estimate_straight(&hand, Some(&discard)), one());
}

#[test]
fn three_card_hand_fails_everywhere() {
    let hand = vec![card(Clubs, Ace), card(Diamonds, King), card(Hearts, Queen)];
    for (category, estimator) in ALL {
        assert_eq!(estimator(&hand, None), Err(PredictError::InsufficientCards(category)));
    }
}

#[test]
fn plain_hand_exact_estimates() {
    let hand = plain_hand();
    assert_eq!(estimate_pair(&hand, None), odds(15, 47));
    assert_eq!(estimate_high_card(&hand, None), odds(32, 47));
    assert_eq!(estimate_two_pair(&hand, None), odds(5, 26));
    assert_eq!(estimate_three_of_a_kind(&hand, None), odds(45, 470));
    assert_eq!(estimate_straight(&hand, None), odds(0, 47));
    assert_eq!(estimate_flush(&hand, None), odds(0, 470));
    assert_eq!(estimate_full_house(&hand, None), odds(0, 47));
    assert_eq!(estimate_four_of_a_kind(&hand, None), odds(0, 470));
    assert_eq!(estimate_straight_flush(&hand, None), odds(0, 47));
    assert_eq!(estimate_royal_flush(&hand, None), odds(0, 47));
}

#[test]
fn discard_shrinks_the_pool() {
    let discard = vec![card(Hearts, Three)];
    assert_eq!(estimate_pair(&plain_hand(), Some(&discard)), odds(18, 46));
}

#[test]
fn one_pair_exact_estimates() {
    let hand = one_pair_hand();
    assert_eq!(estimate_three_of_a_kind(&hand, None), odds(47, 470));
    assert_eq!(estimate_four_of_a_kind(&hand, None), odds(2, 470));
    assert_eq!(estimate_full_house(&hand, None), odds(2, 47));
}

#[test]
fn full_house_from_trips_and_from_two_pair() {
    let trips = vec![card(Clubs, Two), card(Diamonds, Two), card(Hearts, Two), card(Spades, Nine), card(Clubs, King)];
    assert_eq!(estimate_full_house(&trips, None), odds(6, 47));
    assert_eq!(estimate_four_of_a_kind(&trips, None), odds(10, 470));
    let two_pair = vec![card(Clubs, Two), card(Diamonds, Two), card(Hearts, Nine), card(Spades, Nine), card(Clubs, King)];
    assert_eq!(estimate_full_house(&two_pair, None), odds(8, 47));
}

#[test]
fn flush_draws() {
    let four_hearts = vec![card(Hearts, Two), card(Hearts, Five), card(Hearts, Nine), card(Hearts, King), card(Clubs, Three)];
    assert_eq!(estimate_flush(&four_hearts, None), odds(90, 470));
    let three_hearts = vec![card(Hearts, Two), card(Hearts, Five), card(Hearts, Nine), card(Clubs, King), card(Clubs, Three)];
    assert_eq!(estimate_flush(&three_hearts, None), odds(30, 470));
}

#[test]
fn straight_flush_draw() {
    let hand = vec![card(Hearts, Five), card(Hearts, Six), card(Hearts, Seven), card(Hearts, Eight), card(Clubs, King)];
    assert_eq!(estimate_straight_flush(&hand, None), odds(2, 47));
    assert_eq!(estimate_straight(&hand, None), odds(8, 47));
}

#[test]
fn royal_flush_draw() {
    let hand = vec![card(Hearts, Ten), card(Hearts, Jack), card(Hearts, Queen), card(Hearts, King), card(Clubs, Two)];
    assert_eq!(estimate_royal_flush(&hand, None), odds(1, 47));
    // only Nine extends 10-J-Q-K: the Ace reads as 11
    assert_eq!(estimate_straight(&hand, None), odds(4, 47));
}

#[test]
fn gapped_window_adds_its_middle_value() {
    // values 2, 3, 5, 6, 9: the window 2-3-5-6 spans four, so cards of value 4 count
    let hand = vec![card(Clubs, Two), card(Diamonds, Three), card(Hearts, Five), card(Spades, Six), card(Clubs, Nine)];
    assert_eq!(estimate_straight(&hand, None), odds(4, 47));
}
