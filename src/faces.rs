use vstd::prelude::*;

verus! {

/// One of the thirteen card ranks.
#[derive(Clone, Copy, Debug, PartialEq, Eq, Structural, Hash)]
pub enum CardFace {
    Two,
    Three,
    Four,
    Five,
    Six,
    Seven,
    Eight,
    Nine,
    Ten,
    Jack,
    Queen,
    King,
    Ace,
}

/// The numeric value of a face as straights read it. Ace and Jack share 11.
pub open spec fn face_value(f: CardFace) -> int {
    match f {
        CardFace::Two => 2,
        CardFace::Three => 3,
        CardFace::Four => 4,
        CardFace::Five => 5,
        CardFace::Six => 6,
        CardFace::Seven => 7,
        CardFace::Eight => 8,
        CardFace::Nine => 9,
        CardFace::Ten => 10,
        CardFace::Jack => 11,
        CardFace::Queen => 12,
        CardFace::King => 13,
        CardFace::Ace => 11,
    }
}

/// The face that the deck builds from `v`: 1 and 11 give Ace, 12 Jack, 13 Queen, 14 King.
/// This is not the inverse of `face_value`.
pub open spec fn face_from_value(v: int) -> CardFace {
    if v == 1 || v == 11 {
        CardFace::Ace
    } else if v == 2 {
        CardFace::Two
    } else if v == 3 {
        CardFace::Three
    } else if v == 4 {
        CardFace::Four
    } else if v == 5 {
        CardFace::Five
    } else if v == 6 {
        CardFace::Six
    } else if v == 7 {
        CardFace::Seven
    } else if v == 8 {
        CardFace::Eight
    } else if v == 9 {
        CardFace::Nine
    } else if v == 10 {
        CardFace::Ten
    } else if v == 12 {
        CardFace::Jack
    } else if v == 13 {
        CardFace::Queen
    } else {
        CardFace::King
    }
}

/// Position of a face in declaration order, used to index per-face tallies.
pub open spec fn face_ordinal(f: CardFace) -> int {
    match f {
        CardFace::Two => 0,
        CardFace::Three => 1,
        CardFace::Four => 2,
        CardFace::Five => 3,
        CardFace::Six => 4,
        CardFace::Seven => 5,
        CardFace::Eight => 6,
        CardFace::Nine => 7,
        CardFace::Ten => 8,
        CardFace::Jack => 9,
        CardFace::Queen => 10,
        CardFace::King => 11,
        CardFace::Ace => 12,
    }
}

/// The face at a position of declaration order (the inverse of `face_ordinal`).
pub open spec fn face_at(i: int) -> CardFace {
    if i == 0 {
        CardFace::Two
    } else if i == 1 {
        CardFace::Three
    } else if i == 2 {
        CardFace::Four
    } else if i == 3 {
        CardFace::Five
    } else if i == 4 {
        CardFace::Six
    } else if i == 5 {
        CardFace::Seven
    } else if i == 6 {
        CardFace::Eight
    } else if i == 7 {
        CardFace::Nine
    } else if i == 8 {
        CardFace::Ten
    } else if i == 9 {
        CardFace::Jack
    } else if i == 10 {
        CardFace::Queen
    } else if i == 11 {
        CardFace::King
    } else {
        CardFace::Ace
    }
}

/// Every face has a position that leads back to it, and a value from 2 to 13.
pub proof fn lemma_face_ordinal(f: CardFace)
    ensures
        0 <= face_ordinal(f) < 13,
        face_at(face_ordinal(f)) == f,
        2 <= face_value(f) <= 13,
{
}

/// Each position below thirteen leads to the face at that position.
pub proof fn lemma_face_at(i: int)
    requires
        0 <= i < 13,
    ensures
        face_ordinal(face_at(i)) == i,
{
}

impl CardFace {
    /// The face that the deck builds from `value`; only 1 to 14 name a face.
    pub fn from_value(value: u8) -> (r: CardFace)
        requires
            1 <= value <= 14,
        ensures
            r == face_from_value(value as int),
    {
        match value {
            1 | 11 => CardFace::Ace,
            2 => CardFace::Two,
            3 => CardFace::Three,
            4 => CardFace::Four,
            5 => CardFace::Five,
            6 => CardFace::Six,
            7 => CardFace::Seven,
            8 => CardFace::Eight,
            9 => CardFace::Nine,
            10 => CardFace::Ten,
            12 => CardFace::Jack,
            13 => CardFace::Queen,
            _ => CardFace::King,
        }
    }

    /// The numeric value that straights read: Two to Ten their number, Jack and Ace 11,
    /// Queen 12, King 13.
    pub fn value(&self) -> (r: u8)
        ensures
            r == face_value(*self),
            2 <= r <= 13,
    {
        match self {
            CardFace::Two => 2,
            CardFace::Three => 3,
            CardFace::Four => 4,
            CardFace::Five => 5,
            CardFace::Six => 6,
            CardFace::Seven => 7,
            CardFace::Eight => 8,
            CardFace::Nine => 9,
            CardFace::Ten => 10,
            CardFace::Ace => 11,
            CardFace::Jack => 11,
            CardFace::Queen => 12,
            CardFace::King => 13,
        }
    }

    /// Position of the face in declaration order.
    pub fn ordinal(&self) -> (r: usize)
        ensures
            r == face_ordinal(*self),
            r < 13,
    {
        match self {
            CardFace::Two => 0,
            CardFace::Three => 1,
            CardFace::Four => 2,
            CardFace::Five => 3,
            CardFace::Six => 4,
            CardFace::Seven => 5,
            CardFace::Eight => 6,
            CardFace::Nine => 7,
            CardFace::Ten => 8,
            CardFace::Jack => 9,
            CardFace::Queen => 10,
            CardFace::King => 11,
            CardFace::Ace => 12,
        }
    }

    /// The face at position `i` of declaration order.
    pub fn at(i: usize) -> (r: CardFace)
        requires
            i < 13,
        ensures
            r == face_at(i as int),
            face_ordinal(r) == i,
    {
        match i {
            0 => CardFace::Two,
            1 => CardFace::Three,
            2 => CardFace::Four,
            3 => CardFace::Five,
            4 => CardFace::Six,
            5 => CardFace::Seven,
            6 => CardFace::Eight,
            7 => CardFace::Nine,
            8 => CardFace::Ten,
            9 => CardFace::Jack,
            10 => CardFace::Queen,
            11 => CardFace::King,
            _ => CardFace::Ace,
        }
    }
}

impl Default for CardFace {
    /// Ace, with no meaning of its own.
    fn default() -> (r: CardFace)
        ensures
            r == CardFace::Ace,
    {
        CardFace::Ace
    }
}

} // verus!
