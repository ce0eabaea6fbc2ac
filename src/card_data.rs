use vstd::prelude::*;

use crate::card_suits::CardSuit;
use crate::faces::CardFace;

verus! {

/// A card: a suit and a face. Two cards are equal when both agree.
#[derive(Clone, Copy, Debug, PartialEq, Eq, Structural)]
pub struct CardData {
    pub card_suit: CardSuit,
    pub card_face: CardFace,
}

impl CardData {
    pub fn is_ace(&self) -> (r: bool)
        ensures
            r == (self.card_face == CardFace::Ace),
    {
        self.card_face == CardFace::Ace
    }

    /// Jack, Queen or King.
    pub fn is_face_card(&self) -> (r: bool)
        ensures
            r == (self.card_face == CardFace::King || self.card_face == CardFace::Queen
                || self.card_face == CardFace::Jack),
    {
        self.card_face == CardFace::King || self.card_face == CardFace::Queen || self.card_face
            == CardFace::Jack
    }
}

impl Default for CardData {
    /// The Ace of Clubs, with no meaning of its own.
    fn default() -> (r: CardData)
        ensures
            r == (CardData { card_suit: CardSuit::Clubs, card_face: CardFace::Ace }),
    {
        CardData { card_suit: CardSuit::Clubs, card_face: CardFace::Ace }
    }
}

} // verus!
