//! The probability calculator: the theoretical chance of each exacta under
//! the strength model, for display beside the odds. The draw itself never
//! reads these figures.

use vstd::prelude::*;
use crate::odds::{multiplier_in, valid_pair, OddsTable};
use crate::strength::{
    lemma_strength_bounds,
    normalized_share,
    strength_of,
    HORSE_STRENGTHS,
    NUM_HORSES,
    PRECISION,
    TOTAL_STRENGTH,
};

verus! {

/// The chance, in fixed point, that `first` wins and `second` comes second:
/// the share of `first` among all horses, times the share of `second` among
/// the rest, each rounded down. Zero unless the two are different horses.
pub open spec fn exacta_probability(first: u8, second: u8) -> int {
    if valid_pair(first, second) {
        let p_first = normalized_share(first as int);
        let remaining = TOTAL_STRENGTH - strength_of(first as int);
        let p_second_given_first = strength_of(second as int) * PRECISION / remaining;
        p_first * p_second_given_first / (PRECISION as int)
    } else {
        0
    }
}

/// Computes the probability of an exacta.
pub fn calculate_exacta_probability(first: u8, second: u8) -> (probability: u64)
    ensures
        probability == exacta_probability(first, second),
        probability <= PRECISION,
{
    if first >= NUM_HORSES as u8 || second >= NUM_HORSES as u8 || first == second {
        return 0;
    }
    proof {
        lemma_strength_bounds(first as int);
        lemma_strength_bounds(second as int);
    }
    let s_first = HORSE_STRENGTHS[first as usize];
    let s_second = HORSE_STRENGTHS[second as usize];

    let p_first = (s_first * PRECISION) / TOTAL_STRENGTH;

    let remaining = TOTAL_STRENGTH - s_first;
    assert(s_second * PRECISION <= 60000) by (nonlinear_arith)
        requires
            s_second <= 6,
            PRECISION == 10000,
    ;
    let p_second_given_first = (s_second * PRECISION) / remaining;
    assert(p_second_given_first <= 10000) by (nonlinear_arith)
        requires
            p_second_given_first == (s_second * 10000) / (remaining as int),
            1 <= s_second <= 6,
            15 <= remaining <= 20,
    ;
    assert(p_first * p_second_given_first <= 28580000) by (nonlinear_arith)
        requires
            p_first <= 2858,
            p_second_given_first <= 10000,
    ;
    (p_first * p_second_given_first) / PRECISION
}

/// One line of the probability table.
#[derive(Debug, Clone, Copy, PartialEq, Eq)]
pub struct ExactaProbability {
    pub first: u8,
    pub second: u8,
    /// Probability of the exacta, scaled by `PRECISION`.
    pub probability: u64,
    pub multiplier: u64,
}

impl Default for ExactaProbability {
    fn default() -> (entry: ExactaProbability)
        ensures
            entry == (ExactaProbability { first: 0, second: 0, probability: 0, multiplier: 0 }),
    {
        ExactaProbability { first: 0, second: 0, probability: 0, multiplier: 0 }
    }
}

/// All pairs of ids, row by row: by first id, then by second.
pub open spec fn all_pairs() -> Seq<(u8, u8)> {
    Seq::new(36, |cell: int| ((cell / 6) as u8, (cell % 6) as u8))
}

/// The pairs that get a line in the table: two different horses on which
/// `odds` pays.
pub open spec fn listed(odds: Map<(u8, u8), u64>) -> spec_fn((u8, u8)) -> bool {
    |pair: (u8, u8)| pair.0 != pair.1 && multiplier_in(odds, pair.0, pair.1) > 0
}

/// The table's line for a pair.
pub open spec fn table_line(odds: Map<(u8, u8), u64>) -> spec_fn((u8, u8)) -> ExactaProbability {
    |pair: (u8, u8)|
        ExactaProbability {
            first: pair.0,
            second: pair.1,
            probability: exacta_probability(pair.0, pair.1) as u64,
            multiplier: multiplier_in(odds, pair.0, pair.1),
        }
}

/// The probability table of `odds`: a line for each listed pair, row by row.
/// Pairs on which `odds` pays nothing are left out.
pub open spec fn probability_table(odds: Map<(u8, u8), u64>) -> Seq<ExactaProbability> {
    all_pairs().filter(listed(odds)).map_values(table_line(odds))
}

/// Builds the probability table of `odds`.
pub fn exacta_probability_table(odds: &OddsTable) -> (table: Vec<ExactaProbability>)
    ensures
        table@ == probability_table(odds@),
{
    let mut table: Vec<ExactaProbability> = Vec::new();
    assert(all_pairs().take(0) =~= Seq::<(u8, u8)>::empty());
    assert(Seq::<(u8, u8)>::empty().filter(listed(odds@)) =~= Seq::<(u8, u8)>::empty()) by {
        reveal(Seq::filter);
    }
    assert(table@ =~= all_pairs().take(0).filter(listed(odds@)).map_values(table_line(odds@)));

    let mut first: u8 = 0;
    while first < NUM_HORSES as u8
        invariant
            first <= NUM_HORSES,
            table@ == all_pairs().take(first * 6).filter(listed(odds@)).map_values(
                table_line(odds@),
            ),
        decreases NUM_HORSES - first,
    {
        let mut second: u8 = 0;
        while second < NUM_HORSES as u8
            invariant
                first < NUM_HORSES,
                second <= NUM_HORSES,
                table@ == all_pairs().take(first * 6 + second).filter(listed(odds@)).map_values(
                    table_line(odds@),
                ),
            decreases NUM_HORSES - second,
        {
            proof {
                let cell = first * 6 + second;
                let before = all_pairs().take(cell);
                assert(all_pairs().take(cell + 1) =~= before.push((first, second)));
                before.lemma_filter_push((first, second), listed(odds@));
                before.filter(listed(odds@)).lemma_push_map_commute(
                    table_line(odds@),
                    (first, second),
                );
            }
            if first != second {
                let prob = calculate_exacta_probability(first, second);
                let mult = odds.get_multiplier(first, second);

                if mult > 0 {
                    table.push(
                        ExactaProbability { first, second, probability: prob, multiplier: mult },
                    );
                }
            }
            second = second + 1;
        }
        first = first + 1;
    }
    assert(all_pairs().take(36) =~= all_pairs());
    table
}

} // verus!
