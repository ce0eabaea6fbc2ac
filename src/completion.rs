use vstd::prelude::*;

use crate::card_data::CardData;
use crate::card_suits::{suit_at, CardSuit};
use crate::faces::{face_at, face_value, CardFace};
use crate::hands::{
    cards_of_suit, count_faces, count_royal_faces, distinct_face_values, distinct_values,
    face_count, has_face, has_suit, has_value, is_face_tally, is_suit_tally, lemma_filter_extend,
    lemma_values_below, of_suit, royal_faces_held, value_count, value_presence,
};

verus! {

/// Over the first `k` faces, the available count of each face that `held` holds exactly
/// `times` times and that `pool` holds at least `min_avail` times, summed.
pub open spec fn face_sum(held: Seq<CardData>, pool: Seq<CardData>, times: nat, min_avail: nat, k: int) -> nat
    decreases k,
{
    if k <= 0 {
        0
    } else {
        face_sum(held, pool, times, min_avail, k - 1) + if face_count(held, face_at(k - 1))
            == times && face_count(pool, face_at(k - 1)) >= min_avail {
            face_count(pool, face_at(k - 1))
        } else {
            0
        }
    }
}

/// Over the first `k` suits, the available count of each suit that `held` holds exactly
/// `times` times and that `pool` holds at least `min_avail` times, summed.
pub open spec fn suit_sum(held: Seq<CardData>, pool: Seq<CardData>, times: nat, min_avail: nat, k: int) -> nat
    decreases k,
{
    if k <= 0 {
        0
    } else {
        suit_sum(held, pool, times, min_avail, k - 1) + if of_suit(held, suit_at(k - 1)).len()
            == times && of_suit(pool, suit_at(k - 1)).len() >= min_avail {
            of_suit(pool, suit_at(k - 1)).len()
        } else {
            0
        }
    }
}

/// Whether value `w` completes the run of four values from `lo` to `hi`: the value just
/// below it unless it starts at 2, the value just above it unless it ends at 13, and for
/// the run 2 to 5 also 6 when an 11 is held, or 11 when none is.
pub open spec fn completes_run(lo: int, hi: int, ace_held: bool, w: int) -> bool {
    ||| lo > 2 && w == lo - 1
    ||| hi < 13 && w == hi + 1
    ||| lo == 2 && hi == 5 && ace_held && w == 6
    ||| lo == 2 && hi == 5 && !ace_held && w == 11
}

/// Holds of a card whose value completes the run from `lo` to `hi`.
pub open spec fn completes(lo: int, hi: int, ace_held: bool) -> spec_fn(CardData) -> bool {
    |c: CardData| completes_run(lo, hi, ace_held, face_value(c.card_face))
}

/// Over the first `k` windows of four entries of `vals` that span exactly three, the cards
/// of `pool` that complete the window, summed (overlapping windows count each time).
pub open spec fn run_completions(vals: Seq<int>, ace_held: bool, pool: Seq<CardData>, k: int) -> nat
    decreases k,
{
    if k <= 0 {
        0
    } else {
        run_completions(vals, ace_held, pool, k - 1) + if vals[k + 2] - vals[k - 1] == 3 {
            pool.filter(completes(vals[k - 1], vals[k + 2], ace_held)).len()
        } else {
            0
        }
    }
}

/// Over the first `k` windows of four entries of `vals` that span exactly four, the cards
/// of `pool` whose value is the window's first value plus two, summed.
pub open spec fn gap_completions(vals: Seq<int>, pool: Seq<CardData>, k: int) -> nat
    decreases k,
{
    if k <= 0 {
        0
    } else {
        gap_completions(vals, pool, k - 1) + if vals[k + 2] - vals[k - 1] == 4 {
            value_count(pool, vals[k - 1] + 2)
        } else {
            0
        }
    }
}

/// Sums the pool counts of the faces held exactly `times` times and found in the pool at
/// least `min_avail` times.
pub(crate) fn face_sum_of(
    held_counts: &Vec<usize>,
    pool_counts: &Vec<usize>,
    times: usize,
    min_avail: usize,
    Ghost(held): Ghost<Seq<CardData>>,
    Ghost(pool): Ghost<Seq<CardData>>,
) -> (r: u64)
    requires
        is_face_tally(held_counts@, held),
        is_face_tally(pool_counts@, pool),
        pool.len() <= 52,
    ensures
        r == face_sum(held, pool, times as nat, min_avail as nat, 13),
        r <= 13 * 52,
{
    let mut total: u64 = 0;
    let mut i: usize = 0;
    while i < 13
        invariant
            i <= 13,
            is_face_tally(held_counts@, held),
            is_face_tally(pool_counts@, pool),
            pool.len() <= 52,
            total == face_sum(held, pool, times as nat, min_avail as nat, i as int),
            total <= 52 * i,
        decreases 13 - i,
    {
        proof {
            pool.lemma_filter_len(has_face(face_at(i as int)));
        }
        assert(held_counts@[i as int] == face_count(held, face_at(i as int)));
        assert(pool_counts@[i as int] == face_count(pool, face_at(i as int)));
        if held_counts[i] == times && pool_counts[i] >= min_avail {
            total = total + pool_counts[i] as u64;
        }
        i += 1;
    }
    total
}

/// The suit counterpart of `face_sum_of`.
pub(crate) fn suit_sum_of(
    held_counts: &Vec<usize>,
    pool_counts: &Vec<usize>,
    times: usize,
    min_avail: usize,
    Ghost(held): Ghost<Seq<CardData>>,
    Ghost(pool): Ghost<Seq<CardData>>,
) -> (r: u64)
    requires
        is_suit_tally(held_counts@, held),
        is_suit_tally(pool_counts@, pool),
        pool.len() <= 52,
    ensures
        r == suit_sum(held, pool, times as nat, min_avail as nat, 4),
        r <= 4 * 52,
{
    let mut total: u64 = 0;
    let mut i: usize = 0;
    while i < 4
        invariant
            i <= 4,
            is_suit_tally(held_counts@, held),
            is_suit_tally(pool_counts@, pool),
            pool.len() <= 52,
            total == suit_sum(held, pool, times as nat, min_avail as nat, i as int),
            total <= 52 * i,
        decreases 4 - i,
    {
        proof {
            pool.lemma_filter_len(has_suit(suit_at(i as int)));
        }
        assert(held_counts@[i as int] == of_suit(held, suit_at(i as int)).len());
        assert(pool_counts@[i as int] == of_suit(pool, suit_at(i as int)).len());
        if held_counts[i] == times && pool_counts[i] >= min_avail {
            total = total + pool_counts[i] as u64;
        }
        i += 1;
    }
    total
}

/// How many cards of `pool` complete the run from `lo` to `hi`.
fn count_completing(pool: &Vec<CardData>, lo: u8, hi: u8, ace_held: bool) -> (r: u64)
    requires
        pool@.len() <= 52,
    ensures
        r == pool@.filter(completes(lo as int, hi as int, ace_held)).len(),
        r <= 52,
{
    let ghost p = completes(lo as int, hi as int, ace_held);
    let mut n: u64 = 0;
    let mut i: usize = 0;
    while i < pool.len()
        invariant
            i <= pool@.len(),
            pool@.len() <= 52,
            p == completes(lo as int, hi as int, ace_held),
            n == pool@.subrange(0, i as int).filter(p).len(),
            n <= i,
        decreases pool@.len() - i,
    {
        proof {
            lemma_filter_extend(pool@, i as int, p);
        }
        let w = pool[i].card_face.value();
        let hit = (lo > 2 && w == lo - 1) || (hi < 13 && w == hi + 1) || (lo == 2 && hi == 5
            && ace_held && w == 6) || (lo == 2 && hi == 5 && !ace_held && w == 11);
        assert(hit == p(pool@[i as int]));
        if hit {
            n += 1;
        }
        i += 1;
    }
    assert(pool@.subrange(0, pool@.len() as int) =~= pool@);
    n
}

/// How many cards of `pool` have face value `v`.
fn count_value(pool: &Vec<CardData>, v: u8) -> (r: u64)
    requires
        pool@.len() <= 52,
    ensures
        r == value_count(pool@, v as int),
        r <= 52,
{
    let mut n: u64 = 0;
    let mut i: usize = 0;
    while i < pool.len()
        invariant
            i <= pool@.len(),
            pool@.len() <= 52,
            n == pool@.subrange(0, i as int).filter(has_value(v as int)).len(),
            n <= i,
        decreases pool@.len() - i,
    {
        proof {
            lemma_filter_extend(pool@, i as int, has_value(v as int));
        }
        if pool[i].card_face.value() == v {
            n += 1;
        }
        i += 1;
    }
    assert(pool@.subrange(0, pool@.len() as int) =~= pool@);
    n
}

/// `vals` holds, as bytes, the strictly ascending values `dv`, each from 2 to 13.
pub open spec fn mirrors_values(vals: Seq<u8>, dv: Seq<int>) -> bool {
    &&& vals.len() == dv.len()
    &&& vals.len() <= 12
    &&& forall|i: int| 0 <= i < vals.len() ==> vals[i] as int == #[trigger] dv[i]
    &&& forall|a: int, b: int| 0 <= a < b < dv.len() ==> dv[a] < dv[b]
    &&& forall|i: int| 0 <= i < dv.len() ==> 2 <= #[trigger] dv[i] < 14
}

/// The cards of `pool` that complete each run of four in `vals`, summed over the runs.
fn run_completions_of(vals: &Vec<u8>, ace_held: bool, pool: &Vec<CardData>, Ghost(dv): Ghost<Seq<int>>) -> (r: u64)
    requires
        mirrors_values(vals@, dv),
        pool@.len() <= 52,
    ensures
        r == run_completions(dv, ace_held, pool@, dv.len() - 3),
        r <= 12 * 52,
{
    if vals.len() < 4 {
        return 0;
    }
    let mut total: u64 = 0;
    let mut i: usize = 0;
    while i + 3 < vals.len()
        invariant
            mirrors_values(vals@, dv),
            vals@.len() >= 4,
            i + 3 <= vals@.len(),
            pool@.len() <= 52,
            total == run_completions(dv, ace_held, pool@, i as int),
            total <= 52 * i,
        decreases vals@.len() - i,
    {
        assert(vals@[i as int] as int == dv[i as int] && vals@[i + 3] as int == dv[i + 3]);
        if vals[i + 3] - vals[i] == 3 {
            let m = count_completing(pool, vals[i], vals[i + 3], ace_held);
            total = total + m;
        }
        i += 1;
    }
    total
}

/// The cards of `pool` that fill each gapped window in `vals`, summed over the windows.
fn gap_completions_of(vals: &Vec<u8>, pool: &Vec<CardData>, Ghost(dv): Ghost<Seq<int>>) -> (r: u64)
    requires
        mirrors_values(vals@, dv),
        pool@.len() <= 52,
    ensures
        r == gap_completions(dv, pool@, dv.len() - 4),
        r <= 12 * 52,
{
    if vals.len() < 5 {
        return 0;
    }
    let mut total: u64 = 0;
    let mut i: usize = 0;
    while i + 4 < vals.len()
        invariant
            mirrors_values(vals@, dv),
            vals@.len() >= 5,
            i + 4 <= vals@.len(),
            pool@.len() <= 52,
            total == gap_completions(dv, pool@, i as int),
            total <= 52 * i,
        decreases vals@.len() - i,
    {
        assert(vals@[i as int] as int == dv[i as int] && vals@[i + 3] as int == dv[i + 3]);
        if vals[i + 3] - vals[i] == 4 {
            let m = count_value(pool, vals[i] + 2);
            total = total + m;
        }
        i += 1;
    }
    total
}

/// The straight estimate's numerator over `pool.len()`: completions of every run of four
/// distinct values held, plus the fills of every gapped window but the last.
pub open spec fn straight_completions(held: Seq<CardData>, pool: Seq<CardData>) -> nat {
    let vals = distinct_values(held);
    run_completions(vals, value_count(held, 11) > 0, pool, vals.len() - 3) + gap_completions(
        vals,
        pool,
        vals.len() - 4,
    )
}

/// Over the first `k` suits of which four or more cards are held, the cards of that suit in
/// `pool` that complete each run of four of the suit's held values, summed.
pub open spec fn suited_run_completions(held: Seq<CardData>, pool: Seq<CardData>, k: int) -> nat
    decreases k,
{
    if k <= 0 {
        0
    } else {
        let group = of_suit(held, suit_at(k - 1));
        let vals = distinct_values(group);
        suited_run_completions(held, pool, k - 1) + if group.len() >= 4 {
            run_completions(
                vals,
                value_count(group, 11) > 0,
                of_suit(pool, suit_at(k - 1)),
                vals.len() - 3,
            )
        } else {
            0
        }
    }
}

/// The cards of `pool` with a face among Ten, Jack, Queen, King and Ace that `group` lacks.
pub open spec fn missing_royal(group: Seq<CardData>, pool: Seq<CardData>) -> nat {
    (if face_count(group, CardFace::Ten) == 0 { face_count(pool, CardFace::Ten) } else { 0 })
        + (if face_count(group, CardFace::Jack) == 0 { face_count(pool, CardFace::Jack) } else { 0 })
        + (if face_count(group, CardFace::Queen) == 0 { face_count(pool, CardFace::Queen) } else { 0 })
        + (if face_count(group, CardFace::King) == 0 { face_count(pool, CardFace::King) } else { 0 })
        + (if face_count(group, CardFace::Ace) == 0 { face_count(pool, CardFace::Ace) } else { 0 })
}

/// Over the first `k` suits of which four or more cards are held, four of them royal faces,
/// the cards of that suit in `pool` with the missing royal face, summed.
pub open spec fn royal_completions(held: Seq<CardData>, pool: Seq<CardData>, k: int) -> nat
    decreases k,
{
    if k <= 0 {
        0
    } else {
        let group = of_suit(held, suit_at(k - 1));
        royal_completions(held, pool, k - 1) + if group.len() >= 4 && royal_faces_held(group)
            == 4 {
            missing_royal(group, of_suit(pool, suit_at(k - 1)))
        } else {
            0
        }
    }
}

/// The distinct values of `cards` as bytes, with the facts the window loops rely on.
fn distinct_values_of(cards: &Vec<CardData>) -> (r: Vec<u8>)
    ensures
        mirrors_values(r@, distinct_values(cards@)),
{
    let r = distinct_face_values(cards);
    proof {
        lemma_values_below(cards@, 14);
    }
    r
}

/// Numerator of the straight estimate over `pool.len()`.
pub fn straight_weight(held: &Vec<CardData>, pool: &Vec<CardData>) -> (r: u64)
    requires
        pool@.len() <= 52,
    ensures
        r == straight_completions(held@, pool@),
        r <= 24 * 52,
{
    let vals = distinct_values_of(held);
    let present = value_presence(held);
    assert(present@[11] == (value_count(held@, 11) > 0));
    let runs = run_completions_of(&vals, present[11], pool, Ghost(distinct_values(held@)));
    let gaps = gap_completions_of(&vals, pool, Ghost(distinct_values(held@)));
    runs + gaps
}

/// Numerator of the straight flush estimate over `pool.len()`.
pub fn straight_flush_weight(held: &Vec<CardData>, pool: &Vec<CardData>) -> (r: u64)
    requires
        pool@.len() <= 52,
    ensures
        r == suited_run_completions(held@, pool@, 4),
        r <= 4 * 12 * 52,
{
    let mut total: u64 = 0;
    let mut k: usize = 0;
    while k < 4
        invariant
            k <= 4,
            pool@.len() <= 52,
            total == suited_run_completions(held@, pool@, k as int),
            total <= 624 * k,
        decreases 4 - k,
    {
        let suit = CardSuit::at(k);
        let group = cards_of_suit(held, suit);
        let suited_pool = cards_of_suit(pool, suit);
        proof {
            pool@.lemma_filter_len(has_suit(suit));
        }
        if group.len() >= 4 {
            let vals = distinct_values_of(&group);
            let present = value_presence(&group);
            assert(present@[11] == (value_count(group@, 11) > 0));
            let m = run_completions_of(&vals, present[11], &suited_pool, Ghost(distinct_values(group@)));
            total = total + m;
        }
        k += 1;
    }
    total
}

/// The cards of `pool` with a royal face that `group` lacks.
fn missing_royal_of(group: &Vec<CardData>, pool: &Vec<CardData>) -> (r: u64)
    requires
        pool@.len() <= 52,
    ensures
        r == missing_royal(group@, pool@),
        r <= 5 * 52,
{
    let held = count_faces(group);
    let avail = count_faces(pool);
    assert(face_at(8) == CardFace::Ten && face_at(9) == CardFace::Jack && face_at(10)
        == CardFace::Queen && face_at(11) == CardFace::King && face_at(12) == CardFace::Ace);
    let mut total: u64 = 0;
    let mut i: usize = 8;
    while i < 13
        invariant
            8 <= i <= 13,
            is_face_tally(held@, group@),
            is_face_tally(avail@, pool@),
            pool@.len() <= 52,
            total <= 52 * (i - 8),
            face_at(8) == CardFace::Ten && face_at(9) == CardFace::Jack && face_at(10)
                == CardFace::Queen && face_at(11) == CardFace::King && face_at(12) == CardFace::Ace,
            total == (if i > 8 && held@[8] == 0 { avail@[8] as int } else { 0 }) + (if i > 9
                && held@[9] == 0 { avail@[9] as int } else { 0 }) + (if i > 10 && held@[10] == 0 {
                avail@[10] as int
            } else { 0 }) + (if i > 11 && held@[11] == 0 { avail@[11] as int } else { 0 }) + (
            if i > 12 && held@[12] == 0 { avail@[12] as int } else { 0 }),
        decreases 13 - i,
    {
        proof {
            pool@.lemma_filter_len(has_face(face_at(i as int)));
        }
        assert(avail@[i as int] == face_count(pool@, face_at(i as int)));
        if held[i] == 0 {
            total = total + avail[i] as u64;
        }
        i += 1;
    }
    assert(held@[8] == face_count(group@, face_at(8)));
    assert(held@[9] == face_count(group@, face_at(9)));
    assert(held@[10] == face_count(group@, face_at(10)));
    assert(held@[11] == face_count(group@, face_at(11)));
    assert(held@[12] == face_count(group@, face_at(12)));
    assert(avail@[8] == face_count(pool@, face_at(8)));
    assert(avail@[9] == face_count(pool@, face_at(9)));
    assert(avail@[10] == face_count(pool@, face_at(10)));
    assert(avail@[11] == face_count(pool@, face_at(11)));
    assert(avail@[12] == face_count(pool@, face_at(12)));
    total
}

/// Numerator of the royal flush estimate over `pool.len()`.
pub fn royal_flush_weight(held: &Vec<CardData>, pool: &Vec<CardData>) -> (r: u64)
    requires
        pool@.len() <= 52,
    ensures
        r == royal_completions(held@, pool@, 4),
        r <= 4 * 5 * 52,
{
    let mut total: u64 = 0;
    let mut k: usize = 0;
    while k < 4
        invariant
            k <= 4,
            pool@.len() <= 52,
            total == royal_completions(held@, pool@, k as int),
            total <= 260 * k,
        decreases 4 - k,
    {
        let suit = CardSuit::at(k);
        let group = cards_of_suit(held, suit);
        let suited_pool = cards_of_suit(pool, suit);
        proof {
            pool@.lemma_filter_len(has_suit(suit));
        }
        if group.len() >= 4 && count_royal_faces(&group) == 4 {
            let m = missing_royal_of(&group, &suited_pool);
            total = total + m;
        }
        k += 1;
    }
    total
}

} // verus!
