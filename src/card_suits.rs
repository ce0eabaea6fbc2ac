use vstd::prelude::*;

verus! {

/// One of the four card families. It carries no order: suits are only grouped.
#[derive(Clone, Copy, Debug, PartialEq, Eq, Structural, Hash)]
pub enum CardSuit {
    Clubs,
    Diamonds,
    Hearts,
    Spades,
}

/// The suit that `CardSuit::from_index` gives for `index`: the deck lays suits out in this order.
pub open spec fn suit_from_index(index: int) -> CardSuit {
    if index == 0 {
        CardSuit::Hearts
    } else if index == 1 {
        CardSuit::Diamonds
    } else if index == 2 {
        CardSuit::Clubs
    } else {
        CardSuit::Spades
    }
}

/// Position of a suit in declaration order, used to index per-suit tallies.
pub open spec fn suit_ordinal(s: CardSuit) -> int {
    match s {
        CardSuit::Clubs => 0,
        CardSuit::Diamonds => 1,
        CardSuit::Hearts => 2,
        CardSuit::Spades => 3,
    }
}

/// The suit at a position of declaration order (the inverse of `suit_ordinal`).
pub open spec fn suit_at(i: int) -> CardSuit {
    if i == 0 {
        CardSuit::Clubs
    } else if i == 1 {
        CardSuit::Diamonds
    } else if i == 2 {
        CardSuit::Hearts
    } else {
        CardSuit::Spades
    }
}

/// Every suit has a position, and the position leads back to it.
pub proof fn lemma_suit_ordinal(s: CardSuit)
    ensures
        0 <= suit_ordinal(s) < 4,
        suit_at(suit_ordinal(s)) == s,
{
}

/// Each position below four leads to the suit at that position.
pub proof fn lemma_suit_at(i: int)
    requires
        0 <= i < 4,
    ensures
        suit_ordinal(suit_at(i)) == i,
{
}

impl CardSuit {
    /// The suit that the deck places at position `index`; only 0 to 3 name a suit.
    pub fn from_index(index: u8) -> (r: CardSuit)
        requires
            index < 4,
        ensures
            r == suit_from_index(index as int),
    {
        match index {
            0 => CardSuit::Hearts,
            1 => CardSuit::Diamonds,
            2 => CardSuit::Clubs,
            _ => CardSuit::Spades,
        }
    }

    /// Position of the suit in declaration order.
    pub fn ordinal(&self) -> (r: usize)
        ensures
            r == suit_ordinal(*self),
            r < 4,
    {
        match self {
            CardSuit::Clubs => 0,
            CardSuit::Diamonds => 1,
            CardSuit::Hearts => 2,
            CardSuit::Spades => 3,
        }
    }

    /// The suit at position `i` of declaration order.
    pub fn at(i: usize) -> (r: CardSuit)
        requires
            i < 4,
        ensures
            r == suit_at(i as int),
            suit_ordinal(r) == i,
    {
        match i {
            0 => CardSuit::Clubs,
            1 => CardSuit::Diamonds,
            2 => CardSuit::Hearts,
            _ => CardSuit::Spades,
        }
    }
}

impl Default for CardSuit {
    /// Clubs, with no meaning of its own.
    fn default() -> (r: CardSuit)
        ensures
            r == CardSuit::Clubs,
    {
        CardSuit::Clubs
    }
}

} // verus!
