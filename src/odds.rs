use vstd::prelude::*;

verus! {

/// An exact probability, the fraction `num / den`.
#[derive(Clone, Copy, Debug, PartialEq, Eq, Structural)]
pub struct Odds {
    pub num: u64,
    pub den: u64,
}

/// The probability zero.
pub open spec fn odds_zero() -> Odds {
    Odds { num: 0, den: 1 }
}

/// The probability one.
pub open spec fn odds_one() -> Odds {
    Odds { num: 1, den: 1 }
}

/// `num / den`, capped at one: a fraction of one or more becomes exactly one.
pub open spec fn capped(num: int, den: int) -> Odds {
    if num >= den {
        odds_one()
    } else {
        Odds { num: num as u64, den: den as u64 }
    }
}

impl Odds {
    /// A probability: a positive denominator and a numerator no larger.
    pub open spec fn wf(self) -> bool {
        0 < self.den && self.num <= self.den
    }

    pub fn zero() -> (r: Odds)
        ensures
            r == odds_zero(),
            r.wf(),
    {
        Odds { num: 0, den: 1 }
    }

    pub fn one() -> (r: Odds)
        ensures
            r == odds_one(),
            r.wf(),
    {
        Odds { num: 1, den: 1 }
    }

    /// `num / den`, capped at one.
    pub fn capped(num: u64, den: u64) -> (r: Odds)
        requires
            den > 0,
        ensures
            r == capped(num as int, den as int),
            r.wf(),
    {
        if num >= den {
            Odds { num: 1, den: 1 }
        } else {
            Odds { num, den }
        }
    }

    /// Whether the fraction is zero.
    pub fn is_zero(&self) -> (r: bool)
        ensures
            r == (self.num == 0),
    {
        self.num == 0
    }

    /// Whether the fraction is one.
    pub fn is_one(&self) -> (r: bool)
        ensures
            r == (self.num == self.den),
    {
        self.num == self.den
    }
}

} // verus!
