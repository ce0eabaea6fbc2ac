use vstd::prelude::*;

use crate::card_data::CardData;
use crate::card_suits::{suit_from_index, CardSuit};
use crate::faces::{face_from_value, CardFace};

verus! {

/// The card at position `i` of the deck: thirteen cards per suit, suits in the order of
/// `suit_from_index`, faces built from the values 2 to 14.
pub open spec fn deck_card(i: int) -> CardData {
    CardData { card_suit: suit_from_index(i / 13), card_face: face_from_value(i % 13 + 2) }
}

/// The full 52-card deck, in order.
pub open spec fn full_deck() -> Seq<CardData> {
    Seq::new(52, |i: int| deck_card(i))
}

/// Holds of a card that does not occur in `unavailable`.
pub open spec fn not_in(unavailable: Seq<CardData>) -> spec_fn(CardData) -> bool {
    |c: CardData| !unavailable.contains(c)
}

/// The deck cards that still can be drawn: every deck card equal to none of `unavailable`,
/// in deck order. A card held twice is removed once, like a card held once.
pub open spec fn available(unavailable: Seq<CardData>) -> Seq<CardData> {
    full_deck().filter(not_in(unavailable))
}

/// Builds the full deck in order.
pub fn get_deck_ace_high() -> (r: [CardData; 52])
    ensures
        r@ == full_deck(),
{
    let mut deck = [CardData { card_suit: CardSuit::Clubs, card_face: CardFace::Ace };52];
    let mut i: usize = 0;
    let mut suit_index: u8 = 0;
    while suit_index < 4
        invariant
            suit_index <= 4,
            i == suit_index * 13,
            deck@.len() == 52,
            forall|j: int| 0 <= j < i ==> deck@[j] == deck_card(j),
        decreases 4 - suit_index,
    {
        let suit = CardSuit::from_index(suit_index);
        let mut value: u8 = 2;
        while value <= 14
            invariant
                suit_index < 4,
                2 <= value <= 15,
                i == suit_index * 13 + value - 2,
                suit == suit_from_index(suit_index as int),
                deck@.len() == 52,
                forall|j: int| 0 <= j < i ==> deck@[j] == deck_card(j),
            decreases 15 - value,
        {
            proof {
                let s = suit_index as int;
                let k = value as int - 2;
                assert((s * 13 + k) / 13 == s && (s * 13 + k) % 13 == k) by (nonlinear_arith)
                    requires
                        0 <= k < 13,
                        0 <= s,
                ;
            }
            deck[i] = CardData { card_suit: suit, card_face: CardFace::from_value(value) };
            i += 1;
            value += 1;
        }
        suit_index += 1;
    }
    assert(deck@ =~= full_deck());
    deck
}

/// Whether `cards` holds a card equal to `card`.
pub fn holds_card(cards: &Vec<CardData>, card: CardData) -> (r: bool)
    ensures
        r == cards@.contains(card),
{
    let mut i: usize = 0;
    while i < cards.len()
        invariant
            i <= cards@.len(),
            forall|j: int| 0 <= j < i ==> cards@[j] != card,
        decreases cards@.len() - i,
    {
        if cards[i] == card {
            return true;
        }
        i += 1;
    }
    false
}

/// The deck cards not among `unavailable`, in deck order.
pub fn available_cards(unavailable: &Vec<CardData>) -> (r: Vec<CardData>)
    ensures
        r@ == available(unavailable@),
        r@.len() <= 52,
{
    let deck = get_deck_ace_high();
    let mut r: Vec<CardData> = Vec::new();
    let mut i: usize = 0;
    while i < 52
        invariant
            i <= 52,
            deck@ == full_deck(),
            r@ == deck@.subrange(0, i as int).filter(not_in(unavailable@)),
        decreases 52 - i,
    {
        let card = deck[i];
        let keep = !holds_card(unavailable, card);
        if keep {
            r.push(card);
        }
        proof {
            let next = deck@.subrange(0, i + 1);
            assert(next.drop_last() =~= deck@.subrange(0, i as int));
            assert(next.last() == card);
            assert(not_in(unavailable@)(card) == keep);
            reveal(Seq::filter);
        }
        i += 1;
    }
    assert(deck@.subrange(0, 52) =~= deck@);
    proof {
        full_deck().lemma_filter_len(not_in(unavailable@));
    }
    r
}

} // verus!
