use vstd::prelude::*;

use crate::card_data::CardData;
use crate::card_suits::{lemma_suit_at, lemma_suit_ordinal, suit_at, suit_ordinal, CardSuit};
use crate::faces::{face_at, face_ordinal, face_value, lemma_face_at, lemma_face_ordinal, CardFace};

verus! {

/// Holds of a card of face `f`.
pub open spec fn has_face(f: CardFace) -> spec_fn(CardData) -> bool {
    |c: CardData| c.card_face == f
}

/// Holds of a card of suit `s`.
pub open spec fn has_suit(s: CardSuit) -> spec_fn(CardData) -> bool {
    |c: CardData| c.card_suit == s
}

/// Holds of a card whose face value is `v`.
pub open spec fn has_value(v: int) -> spec_fn(CardData) -> bool {
    |c: CardData| face_value(c.card_face) == v
}

/// How many of `cards` have face `f`.
pub open spec fn face_count(cards: Seq<CardData>, f: CardFace) -> nat {
    cards.filter(has_face(f)).len()
}

/// How many of `cards` have face value `v`.
pub open spec fn value_count(cards: Seq<CardData>, v: int) -> nat {
    cards.filter(has_value(v)).len()
}

/// The cards of suit `s`, in their order.
pub open spec fn of_suit(cards: Seq<CardData>, s: CardSuit) -> Seq<CardData> {
    cards.filter(has_suit(s))
}

/// `counts` gives, at each face's position, how many of `cards` have that face.
pub open spec fn is_face_tally(counts: Seq<usize>, cards: Seq<CardData>) -> bool {
    &&& counts.len() == 13
    &&& forall|i: int| 0 <= i < 13 ==> counts[i] == face_count(cards, #[trigger] face_at(i))
}

/// `counts` gives, at each suit's position, how many of `cards` have that suit.
pub open spec fn is_suit_tally(counts: Seq<usize>, cards: Seq<CardData>) -> bool {
    &&& counts.len() == 4
    &&& forall|i: int| 0 <= i < 4 ==> counts[i] == of_suit(cards, #[trigger] suit_at(i)).len()
}

/// How many faces among the first `k` (in declaration order) occur at least `t` times.
pub open spec fn faces_at_least(cards: Seq<CardData>, t: nat, k: int) -> nat
    decreases k,
{
    if k <= 0 {
        0
    } else {
        faces_at_least(cards, t, k - 1) + if face_count(cards, face_at(k - 1)) >= t {
            1nat
        } else {
            0nat
        }
    }
}

/// How many distinct faces occur at least `t` times.
pub open spec fn distinct_faces_at_least(cards: Seq<CardData>, t: nat) -> nat {
    faces_at_least(cards, t, 13)
}

/// The distinct face values below `v` that occur in `cards`, ascending.
pub open spec fn values_below(cards: Seq<CardData>, v: int) -> Seq<int>
    decreases v,
{
    if v <= 2 {
        seq![]
    } else if value_count(cards, v - 1) > 0 {
        values_below(cards, v - 1).push(v - 1)
    } else {
        values_below(cards, v - 1)
    }
}

/// The distinct face values of `cards`, ascending.
pub open spec fn distinct_values(cards: Seq<CardData>) -> Seq<int> {
    values_below(cards, 14)
}

/// Some face occurs at least twice.
pub open spec fn spec_has_pair(cards: Seq<CardData>) -> bool {
    exists|f: CardFace| face_count(cards, f) >= 2
}

/// At least two distinct faces occur at least twice each.
pub open spec fn spec_has_two_pair(cards: Seq<CardData>) -> bool {
    distinct_faces_at_least(cards, 2) >= 2
}

/// Some face occurs at least three times.
pub open spec fn spec_has_three_of_a_kind(cards: Seq<CardData>) -> bool {
    exists|f: CardFace| face_count(cards, f) >= 3
}

/// At least five cards, and either five consecutive entries of the ascending distinct
/// values span exactly four, or 2, 3, 4, 5 and 11 all occur.
pub open spec fn spec_has_straight(cards: Seq<CardData>) -> bool {
    let vals = distinct_values(cards);
    &&& cards.len() >= 5
    &&& {
        ||| exists|i: int| 0 <= i && i + 4 < vals.len() && #[trigger] vals[i + 4] - vals[i] == 4
        ||| {
            &&& value_count(cards, 2) > 0
            &&& value_count(cards, 3) > 0
            &&& value_count(cards, 4) > 0
            &&& value_count(cards, 5) > 0
            &&& value_count(cards, 11) > 0
        }
    }
}

/// Some suit occurs at least five times.
pub open spec fn spec_has_flush(cards: Seq<CardData>) -> bool {
    exists|s: CardSuit| of_suit(cards, s).len() >= 5
}

/// Some face occurs at least three times, and at least two distinct faces occur at least
/// twice (the triple counts as one of them).
pub open spec fn spec_has_full_house(cards: Seq<CardData>) -> bool {
    spec_has_three_of_a_kind(cards) && distinct_faces_at_least(cards, 2) >= 2
}

/// Some face occurs at least four times.
pub open spec fn spec_has_four_of_a_kind(cards: Seq<CardData>) -> bool {
    exists|f: CardFace| face_count(cards, f) >= 4
}

/// At least five cards, and the cards of some suit, five or more, hold a straight.
pub open spec fn spec_has_straight_flush(cards: Seq<CardData>) -> bool {
    &&& cards.len() >= 5
    &&& exists|s: CardSuit|
        of_suit(cards, s).len() >= 5 && #[trigger] spec_has_straight(of_suit(cards, s))
}

/// How many of Ten, Jack, Queen, King and Ace occur in `cards`.
pub open spec fn royal_faces_held(cards: Seq<CardData>) -> nat {
    (if face_count(cards, CardFace::Ten) > 0 { 1nat } else { 0nat })
        + (if face_count(cards, CardFace::Jack) > 0 { 1nat } else { 0nat })
        + (if face_count(cards, CardFace::Queen) > 0 { 1nat } else { 0nat })
        + (if face_count(cards, CardFace::King) > 0 { 1nat } else { 0nat })
        + (if face_count(cards, CardFace::Ace) > 0 { 1nat } else { 0nat })
}

/// At least five cards, and the cards of some suit, five or more, hold all of Ten, Jack,
/// Queen, King and Ace.
pub open spec fn spec_has_royal_flush(cards: Seq<CardData>) -> bool {
    &&& cards.len() >= 5
    &&& exists|s: CardSuit|
        of_suit(cards, s).len() >= 5 && #[trigger] royal_faces_held(of_suit(cards, s)) == 5
}

/// The filter of a prefix one longer adds the next card exactly when it passes.
pub proof fn lemma_filter_extend(cards: Seq<CardData>, i: int, p: spec_fn(CardData) -> bool)
    requires
        0 <= i < cards.len(),
    ensures
        cards.subrange(0, i + 1).filter(p) == if p(cards[i]) {
            cards.subrange(0, i).filter(p).push(cards[i])
        } else {
            cards.subrange(0, i).filter(p)
        },
{
    reveal(Seq::filter);
    assert(cards.subrange(0, i + 1).drop_last() =~= cards.subrange(0, i));
}

/// Tallies the cards by face, at each face's position in declaration order.
pub fn count_faces(cards: &Vec<CardData>) -> (r: Vec<usize>)
    ensures
        is_face_tally(r@, cards@),
{
    let mut r: Vec<usize> = Vec::new();
    let mut k: usize = 0;
    while k < 13
        invariant
            k <= 13,
            r@.len() == k,
            forall|j: int| 0 <= j < k ==> r@[j] == 0,
        decreases 13 - k,
    {
        r.push(0);
        k += 1;
    }
    let mut i: usize = 0;
    while i < cards.len()
        invariant
            i <= cards@.len(),
            r@.len() == 13,
            forall|j: int|
                0 <= j < 13 ==> r@[j] == cards@.subrange(0, i as int).filter(
                    has_face(#[trigger] face_at(j)),
                ).len(),
            forall|j: int| 0 <= j < 13 ==> r@[j] <= i,
        decreases cards@.len() - i,
    {
        let o = cards[i].card_face.ordinal();
        proof {
            lemma_face_ordinal(cards@[i as int].card_face);
            assert forall|j: int| 0 <= j < 13 implies cards@.subrange(0, i + 1).filter(
                has_face(#[trigger] face_at(j)),
            ).len() == cards@.subrange(0, i as int).filter(has_face(face_at(j))).len() + if j
                == o {
                1int
            } else {
                0int
            } by {
                lemma_filter_extend(cards@, i as int, has_face(face_at(j)));
                lemma_face_at(j);
            }
        }
        let c = r[o];
        r.set(o, c + 1);
        i += 1;
    }
    assert(cards@.subrange(0, cards@.len() as int) =~= cards@);
    r
}

/// Tallies the cards by suit, at each suit's position in declaration order.
pub fn count_suits(cards: &Vec<CardData>) -> (r: Vec<usize>)
    ensures
        is_suit_tally(r@, cards@),
{
    let mut r: Vec<usize> = Vec::new();
    let mut k: usize = 0;
    while k < 4
        invariant
            k <= 4,
            r@.len() == k,
            forall|j: int| 0 <= j < k ==> r@[j] == 0,
        decreases 4 - k,
    {
        r.push(0);
        k += 1;
    }
    let mut i: usize = 0;
    while i < cards.len()
        invariant
            i <= cards@.len(),
            r@.len() == 4,
            forall|j: int|
                0 <= j < 4 ==> r@[j] == cards@.subrange(0, i as int).filter(
                    has_suit(#[trigger] suit_at(j)),
                ).len(),
            forall|j: int| 0 <= j < 4 ==> r@[j] <= i,
        decreases cards@.len() - i,
    {
        let o = cards[i].card_suit.ordinal();
        proof {
            lemma_suit_ordinal(cards@[i as int].card_suit);
            assert forall|j: int| 0 <= j < 4 implies cards@.subrange(0, i + 1).filter(
                has_suit(#[trigger] suit_at(j)),
            ).len() == cards@.subrange(0, i as int).filter(has_suit(suit_at(j))).len() + if j
                == o {
                1int
            } else {
                0int
            } by {
                lemma_filter_extend(cards@, i as int, has_suit(suit_at(j)));
                lemma_suit_at(j);
            }
        }
        let c = r[o];
        r.set(o, c + 1);
        i += 1;
    }
    assert(cards@.subrange(0, cards@.len() as int) =~= cards@);
    r
}

/// The cards of suit `suit`, in their order.
pub fn cards_of_suit(cards: &Vec<CardData>, suit: CardSuit) -> (r: Vec<CardData>)
    ensures
        r@ == of_suit(cards@, suit),
{
    let mut r: Vec<CardData> = Vec::new();
    let mut i: usize = 0;
    while i < cards.len()
        invariant
            i <= cards@.len(),
            r@ == cards@.subrange(0, i as int).filter(has_suit(suit)),
        decreases cards@.len() - i,
    {
        proof {
            lemma_filter_extend(cards@, i as int, has_suit(suit));
        }
        if cards[i].card_suit == suit {
            r.push(cards[i]);
        }
        i += 1;
    }
    assert(cards@.subrange(0, cards@.len() as int) =~= cards@);
    r
}

/// Whether some entry of `counts` is at least `t`.
fn any_at_least(counts: &Vec<usize>, t: usize) -> (r: bool)
    ensures
        r == exists|i: int| 0 <= i < counts@.len() && counts@[i] >= t,
{
    let mut i: usize = 0;
    while i < counts.len()
        invariant
            i <= counts@.len(),
            forall|j: int| 0 <= j < i ==> counts@[j] < t,
        decreases counts@.len() - i,
    {
        if counts[i] >= t {
            return true;
        }
        i += 1;
    }
    false
}

/// A face tally has an entry of at least `t` exactly when some face occurs `t` times.
proof fn lemma_face_tally_exists(counts: Seq<usize>, cards: Seq<CardData>, t: int)
    requires
        is_face_tally(counts, cards),
    ensures
        (exists|i: int| 0 <= i < counts.len() && counts[i] >= t) == (exists|f: CardFace|
            face_count(cards, f) >= t),
{
    if exists|i: int| 0 <= i < counts.len() && counts[i] >= t {
        let i = choose|i: int| 0 <= i < counts.len() && counts[i] >= t;
        assert(face_count(cards, face_at(i)) >= t);
    }
    if exists|f: CardFace| face_count(cards, f) >= t {
        let f = choose|f: CardFace| face_count(cards, f) >= t;
        lemma_face_ordinal(f);
        assert(counts[face_ordinal(f)] >= t);
    }
}

/// A suit tally has an entry of at least `t` exactly when some suit occurs `t` times.
proof fn lemma_suit_tally_exists(counts: Seq<usize>, cards: Seq<CardData>, t: int)
    requires
        is_suit_tally(counts, cards),
    ensures
        (exists|i: int| 0 <= i < counts.len() && counts[i] >= t) == (exists|s: CardSuit|
            of_suit(cards, s).len() >= t),
{
    if exists|i: int| 0 <= i < counts.len() && counts[i] >= t {
        let i = choose|i: int| 0 <= i < counts.len() && counts[i] >= t;
        assert(of_suit(cards, suit_at(i)).len() >= t);
    }
    if exists|s: CardSuit| of_suit(cards, s).len() >= t {
        let s = choose|s: CardSuit| of_suit(cards, s).len() >= t;
        lemma_suit_ordinal(s);
        assert(counts[suit_ordinal(s)] >= t);
    }
}

/// How many faces of a face tally reach `t`.
pub(crate) fn number_at_least(counts: &Vec<usize>, t: usize, Ghost(cards): Ghost<Seq<CardData>>) -> (r: usize)
    requires
        is_face_tally(counts@, cards),
    ensures
        r == distinct_faces_at_least(cards, t as nat),
        r <= 13,
{
    let mut n: usize = 0;
    let mut i: usize = 0;
    while i < 13
        invariant
            i <= 13,
            is_face_tally(counts@, cards),
            n == faces_at_least(cards, t as nat, i as int),
            n <= i,
        decreases 13 - i,
    {
        assert(counts@[i as int] == face_count(cards, face_at(i as int)));
        if counts[i] >= t {
            n += 1;
        }
        i += 1;
    }
    n
}

/// Some face occurs at least twice.
pub fn has_pair(cards: &Vec<CardData>) -> (r: bool)
    ensures
        r == spec_has_pair(cards@),
{
    let counts = count_faces(cards);
    proof {
        lemma_face_tally_exists(counts@, cards@, 2);
    }
    any_at_least(&counts, 2)
}

/// At least two distinct faces occur at least twice each.
pub fn has_two_pair(cards: &Vec<CardData>) -> (r: bool)
    ensures
        r == spec_has_two_pair(cards@),
{
    let counts = count_faces(cards);
    number_at_least(&counts, 2, Ghost(cards@)) >= 2
}

/// Some face occurs at least three times.
pub fn has_three_of_a_kind(cards: &Vec<CardData>) -> (r: bool)
    ensures
        r == spec_has_three_of_a_kind(cards@),
{
    let counts = count_faces(cards);
    proof {
        lemma_face_tally_exists(counts@, cards@, 3);
    }
    any_at_least(&counts, 3)
}

/// Some suit occurs at least five times.
pub fn has_flush(cards: &Vec<CardData>) -> (r: bool)
    ensures
        r == spec_has_flush(cards@),
{
    let counts = count_suits(cards);
    proof {
        lemma_suit_tally_exists(counts@, cards@, 5);
    }
    any_at_least(&counts, 5)
}

/// A face occurs three times or more, and two distinct faces occur twice or more.
pub fn has_full_house(cards: &Vec<CardData>) -> (r: bool)
    ensures
        r == spec_has_full_house(cards@),
{
    let counts = count_faces(cards);
    proof {
        lemma_face_tally_exists(counts@, cards@, 3);
    }
    let three = any_at_least(&counts, 3);
    let pairs = number_at_least(&counts, 2, Ghost(cards@));
    three && pairs >= 2
}

/// Some face occurs at least four times.
pub fn has_four_of_a_kind(cards: &Vec<CardData>) -> (r: bool)
    ensures
        r == spec_has_four_of_a_kind(cards@),
{
    let counts = count_faces(cards);
    proof {
        lemma_face_tally_exists(counts@, cards@, 4);
    }
    any_at_least(&counts, 4)
}

/// `present` says, for each value below 14, whether some card has that face value.
pub open spec fn is_value_presence(present: Seq<bool>, cards: Seq<CardData>) -> bool {
    &&& present.len() == 14
    &&& forall|v: int| 0 <= v < 14 ==> #[trigger] present[v] == (value_count(cards, v) > 0)
}

/// Marks, for each value below 14, whether some card has that face value.
pub fn value_presence(cards: &Vec<CardData>) -> (r: Vec<bool>)
    ensures
        is_value_presence(r@, cards@),
{
    let mut r: Vec<bool> = Vec::new();
    let mut k: usize = 0;
    while k < 14
        invariant
            k <= 14,
            r@.len() == k,
            forall|j: int| 0 <= j < k ==> !r@[j],
        decreases 14 - k,
    {
        r.push(false);
        k += 1;
    }
    let mut i: usize = 0;
    while i < cards.len()
        invariant
            i <= cards@.len(),
            r@.len() == 14,
            forall|v: int|
                0 <= v < 14 ==> #[trigger] r@[v] == (cards@.subrange(0, i as int).filter(
                    has_value(v),
                ).len() > 0),
        decreases cards@.len() - i,
    {
        let v = cards[i].card_face.value();
        proof {
            assert forall|w: int| 0 <= w < 14 implies (cards@.subrange(0, i + 1).filter(
                has_value(w),
            ).len() > 0) == (cards@.subrange(0, i as int).filter(has_value(w)).len() > 0 || w
                == v) by {
                lemma_filter_extend(cards@, i as int, has_value(w));
            }
        }
        r.set(v as usize, true);
        i += 1;
    }
    assert(cards@.subrange(0, cards@.len() as int) =~= cards@);
    r
}

/// The distinct values below `v` ascend strictly, lie in `[2, v)`, and number at most `v - 2`.
pub proof fn lemma_values_below(cards: Seq<CardData>, v: int)
    ensures
        forall|i: int, j: int|
            0 <= i < j < values_below(cards, v).len() ==> values_below(cards, v)[i]
                < values_below(cards, v)[j],
        forall|i: int|
            0 <= i < values_below(cards, v).len() ==> 2 <= #[trigger] values_below(cards, v)[i]
                < v,
        v >= 2 ==> values_below(cards, v).len() <= v - 2,
        forall|w: int| 2 <= w < v && value_count(cards, w) > 0 ==> values_below(cards, v).contains(w),
    decreases v,
{
    if v > 2 {
        lemma_values_below(cards, v - 1);
        let prev = values_below(cards, v - 1);
        if value_count(cards, v - 1) > 0 {
            assert(values_below(cards, v) == prev.push(v - 1));
            assert forall|w: int| 2 <= w < v && value_count(cards, w) > 0 implies values_below(
                cards,
                v,
            ).contains(w) by {
                if w == v - 1 {
                    assert(values_below(cards, v)[prev.len() as int] == w);
                } else {
                    assert(prev.contains(w));
                    let k = choose|k: int| 0 <= k < prev.len() && prev[k] == w;
                    assert(values_below(cards, v)[k] == w);
                }
            }
        }
    }
}

/// The distinct face values of `cards`, ascending.
pub fn distinct_face_values(cards: &Vec<CardData>) -> (r: Vec<u8>)
    ensures
        r@.len() == distinct_values(cards@).len(),
        forall|i: int| 0 <= i < r@.len() ==> r@[i] as int == #[trigger] distinct_values(cards@)[i],
        r@.len() <= 12,
{
    let present = value_presence(cards);
    let mut r: Vec<u8> = Vec::new();
    let mut v: u8 = 2;
    while v < 14
        invariant
            2 <= v <= 14,
            is_value_presence(present@, cards@),
            r@.len() == values_below(cards@, v as int).len(),
            forall|i: int|
                0 <= i < r@.len() ==> r@[i] as int == #[trigger] values_below(cards@, v as int)[i],
        decreases 14 - v,
    {
        assert(present@[v as int] == (value_count(cards@, v as int) > 0));
        if present[v as usize] {
            r.push(v);
        }
        v += 1;
    }
    proof {
        lemma_values_below(cards@, 14);
    }
    r
}

/// At least five cards, and five consecutive distinct values, or 2, 3, 4, 5 and 11.
pub fn has_straight(cards: &Vec<CardData>) -> (r: bool)
    ensures
        r == spec_has_straight(cards@),
{
    if cards.len() < 5 {
        return false;
    }
    let vals = distinct_face_values(cards);
    let ghost dv = distinct_values(cards@);
    proof {
        lemma_values_below(cards@, 14);
    }
    let mut i: usize = 0;
    while i + 4 < vals.len()
        invariant
            i <= vals@.len(),
            cards@.len() >= 5,
            dv == distinct_values(cards@),
            vals@.len() == dv.len(),
            vals@.len() <= 12,
            forall|k: int| 0 <= k < vals@.len() ==> vals@[k] as int == #[trigger] dv[k],
            forall|a: int, b: int| 0 <= a < b < dv.len() ==> dv[a] < dv[b],
            forall|j: int| 0 <= j < i ==> #[trigger] dv[j + 4] - dv[j] != 4,
        decreases vals@.len() - i,
    {
        assert(vals@[i + 4] as int == dv[i + 4] && vals@[i as int] as int == dv[i as int]);
        if vals[i + 4] - vals[i] == 4 {
            assert(dv[i + 4] - dv[i as int] == 4);
            return true;
        }
        i += 1;
    }
    let present = value_presence(cards);
    assert(present@[2] == (value_count(cards@, 2) > 0));
    assert(present@[3] == (value_count(cards@, 3) > 0));
    assert(present@[4] == (value_count(cards@, 4) > 0));
    assert(present@[5] == (value_count(cards@, 5) > 0));
    assert(present@[11] == (value_count(cards@, 11) > 0));
    present[2] && present[3] && present[4] && present[5] && present[11]
}

/// At least five cards, and the cards of some suit, five or more, hold a straight.
pub fn has_straight_flush(cards: &Vec<CardData>) -> (r: bool)
    ensures
        r == spec_has_straight_flush(cards@),
{
    if cards.len() < 5 {
        return false;
    }
    let mut k: usize = 0;
    while k < 4
        invariant
            k <= 4,
            cards@.len() >= 5,
            forall|j: int|
                0 <= j < k ==> !(of_suit(cards@, suit_at(j)).len() >= 5 && #[trigger] spec_has_straight(
                    of_suit(cards@, suit_at(j)),
                )),
        decreases 4 - k,
    {
        let suit = CardSuit::at(k);
        let group = cards_of_suit(cards, suit);
        if group.len() >= 5 && has_straight(&group) {
            return true;
        }
        k += 1;
    }
    proof {
        assert forall|s: CardSuit|
            !(of_suit(cards@, s).len() >= 5 && #[trigger] spec_has_straight(of_suit(cards@, s))) by {
            lemma_suit_ordinal(s);
            assert(spec_has_straight(of_suit(cards@, suit_at(suit_ordinal(s)))) == spec_has_straight(of_suit(cards@, s)));
        }
    }
    false
}

/// How many of Ten, Jack, Queen, King and Ace occur among the cards.
pub fn count_royal_faces(cards: &Vec<CardData>) -> (r: usize)
    ensures
        r == royal_faces_held(cards@),
        r <= 5,
{
    let counts = count_faces(cards);
    assert(face_at(8) == CardFace::Ten && face_at(9) == CardFace::Jack && face_at(10)
        == CardFace::Queen && face_at(11) == CardFace::King && face_at(12) == CardFace::Ace);
    let mut n: usize = 0;
    if counts[8] > 0 {
        n += 1;
    }
    if counts[9] > 0 {
        n += 1;
    }
    if counts[10] > 0 {
        n += 1;
    }
    if counts[11] > 0 {
        n += 1;
    }
    if counts[12] > 0 {
        n += 1;
    }
    n
}

/// At least five cards, and the cards of some suit, five or more, hold all of Ten, Jack,
/// Queen, King and Ace.
pub fn has_royal_flush(cards: &Vec<CardData>) -> (r: bool)
    ensures
        r == spec_has_royal_flush(cards@),
{
    if cards.len() < 5 {
        return false;
    }
    let mut k: usize = 0;
    while k < 4
        invariant
            k <= 4,
            cards@.len() >= 5,
            forall|j: int|
                0 <= j < k ==> !(of_suit(cards@, suit_at(j)).len() >= 5 && #[trigger] royal_faces_held(
                    of_suit(cards@, suit_at(j)),
                ) == 5),
        decreases 4 - k,
    {
        let suit = CardSuit::at(k);
        let group = cards_of_suit(cards, suit);
        if group.len() >= 5 && count_royal_faces(&group) == 5 {
            return true;
        }
        k += 1;
    }
    proof {
        assert forall|s: CardSuit|
            !(of_suit(cards@, s).len() >= 5 && #[trigger] royal_faces_held(of_suit(cards@, s)) == 5) by {
            lemma_suit_ordinal(s);
            assert(royal_faces_held(of_suit(cards@, suit_at(suit_ordinal(s)))) == royal_faces_held(of_suit(cards@, s)));
        }
    }
    false
}

} // verus!
