use vstd::prelude::*;

use crate::card_data::CardData;
use crate::completion::{
    face_sum, face_sum_of, royal_completions, royal_flush_weight, straight_completions,
    straight_flush_weight, straight_weight, suit_sum, suit_sum_of, suited_run_completions,
};
use crate::deck::{available, available_cards};
use crate::hands::{
    count_faces, count_suits, distinct_faces_at_least, has_flush, has_four_of_a_kind,
    has_full_house, has_pair, has_royal_flush, has_straight, has_straight_flush,
    has_three_of_a_kind, has_two_pair, number_at_least, spec_has_flush, spec_has_four_of_a_kind,
    spec_has_full_house, spec_has_pair, spec_has_royal_flush, spec_has_straight,
    spec_has_straight_flush, spec_has_three_of_a_kind, spec_has_two_pair,
};
use crate::odds::{capped, odds_one, odds_zero, Odds};

verus! {

/// The ten hand categories, lowest first.
#[derive(Clone, Copy, Debug, PartialEq, Eq, Structural)]
pub enum HandCategory {
    HighCard,
    Pair,
    TwoPair,
    ThreeOfAKind,
    Straight,
    Flush,
    FullHouse,
    FourOfAKind,
    StraightFlush,
    RoyalFlush,
}

/// Why an estimate could not be made.
#[derive(Clone, Copy, Debug, PartialEq, Eq, Structural)]
pub enum PredictError {
    /// The hand held fewer than five cards; the category is the one asked for.
    InsufficientCards(HandCategory),
}

/// The position of a category from high card (0) up to royal flush (9).
pub open spec fn rank(c: HandCategory) -> int {
    match c {
        HandCategory::HighCard => 0,
        HandCategory::Pair => 1,
        HandCategory::TwoPair => 2,
        HandCategory::ThreeOfAKind => 3,
        HandCategory::Straight => 4,
        HandCategory::Flush => 5,
        HandCategory::FullHouse => 6,
        HandCategory::FourOfAKind => 7,
        HandCategory::StraightFlush => 8,
        HandCategory::RoyalFlush => 9,
    }
}

/// The category of rank `k` (the inverse of `rank`).
pub open spec fn category_at(k: int) -> HandCategory {
    if k <= 0 {
        HandCategory::HighCard
    } else if k == 1 {
        HandCategory::Pair
    } else if k == 2 {
        HandCategory::TwoPair
    } else if k == 3 {
        HandCategory::ThreeOfAKind
    } else if k == 4 {
        HandCategory::Straight
    } else if k == 5 {
        HandCategory::Flush
    } else if k == 6 {
        HandCategory::FullHouse
    } else if k == 7 {
        HandCategory::FourOfAKind
    } else if k == 8 {
        HandCategory::StraightFlush
    } else {
        HandCategory::RoyalFlush
    }
}

/// The cards already make category `c`. High card has no such test: it is never counted
/// as made, and its estimate always looks ahead.
pub open spec fn category_holds(cards: Seq<CardData>, c: HandCategory) -> bool {
    match c {
        HandCategory::HighCard => false,
        HandCategory::Pair => spec_has_pair(cards),
        HandCategory::TwoPair => spec_has_two_pair(cards),
        HandCategory::ThreeOfAKind => spec_has_three_of_a_kind(cards),
        HandCategory::Straight => spec_has_straight(cards),
        HandCategory::Flush => spec_has_flush(cards),
        HandCategory::FullHouse => spec_has_full_house(cards),
        HandCategory::FourOfAKind => spec_has_four_of_a_kind(cards),
        HandCategory::StraightFlush => spec_has_straight_flush(cards),
        HandCategory::RoyalFlush => spec_has_royal_flush(cards),
    }
}

/// The cards make some category of rank `k` or above.
pub open spec fn made_from(cards: Seq<CardData>, k: int) -> bool
    decreases 10 - k,
{
    if k >= 10 {
        false
    } else {
        category_holds(cards, category_at(k)) || made_from(cards, k + 1)
    }
}

/// The cards make some category ranked strictly above `c`.
pub open spec fn better_made(cards: Seq<CardData>, c: HandCategory) -> bool {
    made_from(cards, rank(c) + 1)
}

/// The cards out of play: the hand, followed by the discard when there is one.
pub open spec fn merged(hand: Seq<CardData>, discarded: Option<Seq<CardData>>) -> Seq<CardData> {
    match discarded {
        Some(d) => hand + d,
        None => hand,
    }
}

/// The discard as a sequence, when there is one.
pub open spec fn discard_view(discarded: Option<&Vec<CardData>>) -> Option<Seq<CardData>> {
    match discarded {
        Some(d) => Some(d@),
        None => None,
    }
}

/// Numerator and denominator of the look-ahead estimate of `c`, for the cards out of play
/// `held` and the cards left to draw `pool` (not empty). Each way to complete the category
/// adds the share of `pool` that completes it, with no correction for overlap; completions
/// that need two more cards are weighted by three tenths (three of a kind, flush) or one
/// tenth (four of a kind).
pub open spec fn completion(c: HandCategory, held: Seq<CardData>, pool: Seq<CardData>) -> (int, int) {
    let n = pool.len() as int;
    let singles = face_sum(held, pool, 1, 0, 13) as int;
    let doubles = face_sum(held, pool, 2, 0, 13) as int;
    match c {
        HandCategory::HighCard => (if singles >= n { 0 } else { n - singles }, n),
        HandCategory::Pair => (singles, n),
        HandCategory::TwoPair => if distinct_faces_at_least(held, 2) == 1 {
            (singles, n)
        } else if n >= 4 {
            (distinct_faces_at_least(held, 1) as int, 26)
        } else {
            (0, 1)
        },
        HandCategory::ThreeOfAKind => (10 * doubles + 3 * (face_sum(held, pool, 1, 2, 13) as int), 10 * n),
        HandCategory::Straight => (straight_completions(held, pool) as int, n),
        HandCategory::Flush => (
            (10 * suit_sum(held, pool, 4, 0, 4) + 3 * suit_sum(held, pool, 3, 2, 4)) as int,
            10 * n,
        ),
        HandCategory::FullHouse => if spec_has_three_of_a_kind(held) {
            (singles, n)
        } else if distinct_faces_at_least(held, 2) >= 2 {
            (2 * doubles, n)
        } else {
            (doubles, n)
        },
        HandCategory::FourOfAKind => (
            (10 * face_sum(held, pool, 3, 0, 13) + face_sum(held, pool, 2, 2, 13)) as int,
            10 * n,
        ),
        HandCategory::StraightFlush => (suited_run_completions(held, pool, 4) as int, n),
        HandCategory::RoyalFlush => (royal_completions(held, pool, 4) as int, n),
    }
}

/// The estimate of `c` for the cards out of play: one when they make `c`, zero when they
/// make a better category or no card is left to draw, else the capped look-ahead estimate.
pub open spec fn category_odds(held: Seq<CardData>, c: HandCategory) -> Odds {
    let pool = available(held);
    if category_holds(held, c) {
        odds_one()
    } else if better_made(held, c) {
        odds_zero()
    } else if pool.len() == 0 {
        odds_zero()
    } else {
        capped(completion(c, held, pool).0, completion(c, held, pool).1)
    }
}

/// What estimating `c` gives for `hand` and the optional discard.
pub open spec fn estimate(c: HandCategory, hand: Seq<CardData>, discarded: Option<Seq<CardData>>) -> Result<Odds, PredictError> {
    if hand.len() < 5 {
        Err(PredictError::InsufficientCards(c))
    } else {
        Ok(category_odds(merged(hand, discarded), c))
    }
}

impl HandCategory {
    pub fn rank(&self) -> (r: usize)
        ensures
            r == rank(*self),
    {
        match self {
            HandCategory::HighCard => 0,
            HandCategory::Pair => 1,
            HandCategory::TwoPair => 2,
            HandCategory::ThreeOfAKind => 3,
            HandCategory::Straight => 4,
            HandCategory::Flush => 5,
            HandCategory::FullHouse => 6,
            HandCategory::FourOfAKind => 7,
            HandCategory::StraightFlush => 8,
            HandCategory::RoyalFlush => 9,
        }
    }

    pub fn from_rank(k: usize) -> (r: HandCategory)
        requires
            k < 10,
        ensures
            r == category_at(k as int),
            rank(r) == k,
    {
        match k {
            0 => HandCategory::HighCard,
            1 => HandCategory::Pair,
            2 => HandCategory::TwoPair,
            3 => HandCategory::ThreeOfAKind,
            4 => HandCategory::Straight,
            5 => HandCategory::Flush,
            6 => HandCategory::FullHouse,
            7 => HandCategory::FourOfAKind,
            8 => HandCategory::StraightFlush,
            _ => HandCategory::RoyalFlush,
        }
    }
}

/// Whether the cards already make category `c`.
pub fn makes_category(cards: &Vec<CardData>, c: HandCategory) -> (r: bool)
    ensures
        r == category_holds(cards@, c),
{
    match c {
        HandCategory::HighCard => false,
        HandCategory::Pair => has_pair(cards),
        HandCategory::TwoPair => has_two_pair(cards),
        HandCategory::ThreeOfAKind => has_three_of_a_kind(cards),
        HandCategory::Straight => has_straight(cards),
        HandCategory::Flush => has_flush(cards),
        HandCategory::FullHouse => has_full_house(cards),
        HandCategory::FourOfAKind => has_four_of_a_kind(cards),
        HandCategory::StraightFlush => has_straight_flush(cards),
        HandCategory::RoyalFlush => has_royal_flush(cards),
    }
}

/// Whether the cards already make a category ranked strictly above `c`.
pub fn makes_better(cards: &Vec<CardData>, c: HandCategory) -> (r: bool)
    ensures
        r == better_made(cards@, c),
{
    let mut k: usize = c.rank() + 1;
    while k < 10
        invariant
            rank(c) + 1 <= k <= 10,
            better_made(cards@, c) == made_from(cards@, k as int),
        decreases 10 - k,
    {
        if makes_category(cards, HandCategory::from_rank(k)) {
            return true;
        }
        k += 1;
    }
    false
}

/// The hand followed by the discard, if any.
fn merge_cards(hand: &Vec<CardData>, discarded: Option<&Vec<CardData>>) -> (r: Vec<CardData>)
    ensures
        r@ == merged(hand@, discard_view(discarded)),
{
    let mut r: Vec<CardData> = Vec::new();
    let mut i: usize = 0;
    while i < hand.len()
        invariant
            i <= hand@.len(),
            r@ == hand@.subrange(0, i as int),
        decreases hand@.len() - i,
    {
        r.push(hand[i]);
        i += 1;
    }
    assert(hand@.subrange(0, hand@.len() as int) =~= hand@);
    match discarded {
        Some(d) => {
            let mut j: usize = 0;
            while j < d.len()
                invariant
                    j <= d@.len(),
                    r@ == hand@ + d@.subrange(0, j as int),
                decreases d@.len() - j,
            {
                r.push(d[j]);
                j += 1;
                assert(r@ =~= hand@ + d@.subrange(0, j as int));
            }
            assert(d@.subrange(0, d@.len() as int) =~= d@);
        },
        None => {},
    }
    r
}

/// Numerator and denominator of the look-ahead estimate of `c`.
fn completion_of(c: HandCategory, held: &Vec<CardData>, pool: &Vec<CardData>) -> (r: (u64, u64))
    requires
        0 < pool@.len() <= 52,
    ensures
        r.0 == completion(c, held@, pool@).0,
        r.1 == completion(c, held@, pool@).1,
        r.1 > 0,
{
    let n = pool.len() as u64;
    let held_faces = count_faces(held);
    let pool_faces = count_faces(pool);
    let singles = face_sum_of(&held_faces, &pool_faces, 1, 0, Ghost(held@), Ghost(pool@));
    let doubles = face_sum_of(&held_faces, &pool_faces, 2, 0, Ghost(held@), Ghost(pool@));
    match c {
        HandCategory::HighCard => {
            if singles >= n {
                (0, n)
            } else {
                (n - singles, n)
            }
        },
        HandCategory::Pair => (singles, n),
        HandCategory::TwoPair => {
            let pairs = number_at_least(&held_faces, 2, Ghost(held@));
            if pairs == 1 {
                (singles, n)
            } else if n >= 4 {
                (number_at_least(&held_faces, 1, Ghost(held@)) as u64, 26)
            } else {
                (0, 1)
            }
        },
        HandCategory::ThreeOfAKind => {
            let spares = face_sum_of(&held_faces, &pool_faces, 1, 2, Ghost(held@), Ghost(pool@));
            (10 * doubles + 3 * spares, 10 * n)
        },
        HandCategory::Straight => (straight_weight(held, pool), n),
        HandCategory::Flush => {
            let held_suits = count_suits(held);
            let pool_suits = count_suits(pool);
            let fours = suit_sum_of(&held_suits, &pool_suits, 4, 0, Ghost(held@), Ghost(pool@));
            let threes = suit_sum_of(&held_suits, &pool_suits, 3, 2, Ghost(held@), Ghost(pool@));
            (10 * fours + 3 * threes, 10 * n)
        },
        HandCategory::FullHouse => {
            if has_three_of_a_kind(held) {
                (singles, n)
            } else if number_at_least(&held_faces, 2, Ghost(held@)) >= 2 {
                (2 * doubles, n)
            } else {
                (doubles, n)
            }
        },
        HandCategory::FourOfAKind => {
            let triples = face_sum_of(&held_faces, &pool_faces, 3, 0, Ghost(held@), Ghost(pool@));
            let spares = face_sum_of(&held_faces, &pool_faces, 2, 2, Ghost(held@), Ghost(pool@));
            (10 * triples + spares, 10 * n)
        },
        HandCategory::StraightFlush => (straight_flush_weight(held, pool), n),
        HandCategory::RoyalFlush => (royal_flush_weight(held, pool), n),
    }
}

/// The estimate of `c` for `hand` and the optional discard.
fn estimate_category(c: HandCategory, hand: &Vec<CardData>, discarded: Option<&Vec<CardData>>) -> (r: Result<Odds, PredictError>)
    ensures
        r == estimate(c, hand@, discard_view(discarded)),
{
    if hand.len() < 5 {
        return Err(PredictError::InsufficientCards(c));
    }
    let held = merge_cards(hand, discarded);
    if makes_category(&held, c) {
        return Ok(Odds::one());
    }
    if makes_better(&held, c) {
        return Ok(Odds::zero());
    }
    let pool = available_cards(&held);
    if pool.len() == 0 {
        return Ok(Odds::zero());
    }
    let (num, den) = completion_of(c, &held, &pool);
    Ok(Odds::capped(num, den))
}

/// The odds of ending with a high card, for `hand` (five cards or more) and the cards
/// already discarded.
pub fn estimate_high_card(hand: &Vec<CardData>, discarded: Option<&Vec<CardData>>) -> (r: Result<Odds, PredictError>)
    ensures
        r == estimate(HandCategory::HighCard, hand@, discard_view(discarded)),
{
    estimate_category(HandCategory::HighCard, hand, discarded)
}

/// The odds of ending with a pair, for `hand` (five cards or more) and the cards
/// already discarded.
pub fn estimate_pair(hand: &Vec<CardData>, discarded: Option<&Vec<CardData>>) -> (r: Result<Odds, PredictError>)
    ensures
        r == estimate(HandCategory::Pair, hand@, discard_view(discarded)),
{
    estimate_category(HandCategory::Pair, hand, discarded)
}

/// The odds of ending with a two pair, for `hand` (five cards or more) and the cards
/// already discarded.
pub fn estimate_two_pair(hand: &Vec<CardData>, discarded: Option<&Vec<CardData>>) -> (r: Result<Odds, PredictError>)
    ensures
        r == estimate(HandCategory::TwoPair, hand@, discard_view(discarded)),
{
    estimate_category(HandCategory::TwoPair, hand, discarded)
}

/// The odds of ending with a three of a kind, for `hand` (five cards or more) and the cards
/// already discarded.
pub fn estimate_three_of_a_kind(hand: &Vec<CardData>, discarded: Option<&Vec<CardData>>) -> (r: Result<Odds, PredictError>)
    ensures
        r == estimate(HandCategory::ThreeOfAKind, hand@, discard_view(discarded)),
{
    estimate_category(HandCategory::ThreeOfAKind, hand, discarded)
}

/// The odds of ending with a straight, for `hand` (five cards or more) and the cards
/// already discarded.
pub fn estimate_straight(hand: &Vec<CardData>, discarded: Option<&Vec<CardData>>) -> (r: Result<Odds, PredictError>)
    ensures
        r == estimate(HandCategory::Straight, hand@, discard_view(discarded)),
{
    estimate_category(HandCategory::Straight, hand, discarded)
}

/// The odds of ending with a flush, for `hand` (five cards or more) and the cards
/// already discarded.
pub fn estimate_flush(hand: &Vec<CardData>, discarded: Option<&Vec<CardData>>) -> (r: Result<Odds, PredictError>)
    ensures
        r == estimate(HandCategory::Flush, hand@, discard_view(discarded)),
{
    estimate_category(HandCategory::Flush, hand, discarded)
}

/// The odds of ending with a full house, for `hand` (five cards or more) and the cards
/// already discarded.
pub fn estimate_full_house(hand: &Vec<CardData>, discarded: Option<&Vec<CardData>>) -> (r: Result<Odds, PredictError>)
    ensures
        r == estimate(HandCategory::FullHouse, hand@, discard_view(discarded)),
{
    estimate_category(HandCategory::FullHouse, hand, discarded)
}

/// The odds of ending with a four of a kind, for `hand` (five cards or more) and the cards
/// already discarded.
pub fn estimate_four_of_a_kind(hand: &Vec<CardData>, discarded: Option<&Vec<CardData>>) -> (r: Result<Odds, PredictError>)
    ensures
        r == estimate(HandCategory::FourOfAKind, hand@, discard_view(discarded)),
{
    estimate_category(HandCategory::FourOfAKind, hand, discarded)
}

/// The odds of ending with a straight flush, for `hand` (five cards or more) and the cards
/// already discarded.
pub fn estimate_straight_flush(hand: &Vec<CardData>, discarded: Option<&Vec<CardData>>) -> (r: Result<Odds, PredictError>)
    ensures
        r == estimate(HandCategory::StraightFlush, hand@, discard_view(discarded)),
{
    estimate_category(HandCategory::StraightFlush, hand, discarded)
}

/// The odds of ending with a royal flush, for `hand` (five cards or more) and the cards
/// already discarded.
pub fn estimate_royal_flush(hand: &Vec<CardData>, discarded: Option<&Vec<CardData>>) -> (r: Result<Odds, PredictError>)
    ensures
        r == estimate(HandCategory::RoyalFlush, hand@, discard_view(discarded)),
{
    estimate_category(HandCategory::RoyalFlush, hand, discarded)
}

/// A category made at rank `k` or above is seen by `made_from` at `k`.
proof fn lemma_made_from(cards: Seq<CardData>, k: int, d: HandCategory)
    requires
        k <= rank(d),
        category_holds(cards, d),
    ensures
        made_from(cards, k),
    decreases rank(d) - k,
{
    if k < rank(d) {
        lemma_made_from(cards, k + 1, d);
    } else {
        assert(category_at(rank(d)) == d);
    }
}

/// A hand of fewer than five cards gives the insufficient-cards error for every category,
/// never a probability.
pub proof fn lemma_short_hand_fails(c: HandCategory, hand: Seq<CardData>, discarded: Option<Seq<CardData>>)
    requires
        hand.len() < 5,
    ensures
        estimate(c, hand, discarded) == Err::<Odds, PredictError>(PredictError::InsufficientCards(c)),
{
}

/// When the cards out of play already make category `c`, its estimate is exactly one.
pub proof fn lemma_made_category_is_certain(c: HandCategory, hand: Seq<CardData>, discarded: Option<Seq<CardData>>)
    requires
        hand.len() >= 5,
        category_holds(merged(hand, discarded), c),
    ensures
        estimate(c, hand, discarded) == Ok::<Odds, PredictError>(odds_one()),
{
}

/// When the cards out of play make a category `better` ranked above `c`, and do not make
/// `c` itself, the estimate of `c` is exactly zero.
pub proof fn lemma_better_category_excludes(
    c: HandCategory,
    better: HandCategory,
    hand: Seq<CardData>,
    discarded: Option<Seq<CardData>>,
)
    requires
        hand.len() >= 5,
        rank(better) > rank(c),
        category_holds(merged(hand, discarded), better),
        !category_holds(merged(hand, discarded), c),
    ensures
        estimate(c, hand, discarded) == Ok::<Odds, PredictError>(odds_zero()),
{
    lemma_made_from(merged(hand, discarded), rank(c) + 1, better);
}

/// Every estimate that succeeds is a probability: a fraction from zero to one.
pub proof fn lemma_estimate_is_probability(c: HandCategory, hand: Seq<CardData>, discarded: Option<Seq<CardData>>)
    ensures
        estimate(c, hand, discarded) matches Ok(p) ==> p.wf(),
{
    let held = merged(hand, discarded);
    let pool = available(held);
    crate::deck::full_deck().lemma_filter_len(crate::deck::not_in(held));
    if hand.len() >= 5 && !category_holds(held, c) && !better_made(held, c) && pool.len() > 0 {
        assert(completion(c, held, pool).1 > 0);
        assert(completion(c, held, pool).1 <= 520);
        assert(completion(c, held, pool).0 >= 0);
    }
}

/// An empty discard and no discard give the same estimate, for every category.
pub proof fn lemma_empty_discard_is_none(c: HandCategory, hand: Seq<CardData>)
    ensures
        estimate(c, hand, Some(Seq::<CardData>::empty())) == estimate(c, hand, None),
{
    assert(hand + Seq::<CardData>::empty() =~= hand);
}

/// The estimate is a function of the hand and the discard alone: two results that the
/// estimators' contract admits for the same inputs are the same.
pub proof fn lemma_estimate_repeatable(
    c: HandCategory,
    hand: Seq<CardData>,
    discarded: Option<Seq<CardData>>,
    first: Result<Odds, PredictError>,
    second: Result<Odds, PredictError>,
)
    requires
        first == estimate(c, hand, discarded),
        second == estimate(c, hand, discarded),
    ensures
        first == second,
{
}

} // verus!
