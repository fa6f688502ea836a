//! The odds table: a payout multiplier for every ordered pair of horses.

use vstd::prelude::*;
use crate::strength::NUM_HORSES;

verus! {

/// The multiplier that the house pays on `first` winning ahead of `second`.
/// Zero on the diagonal and for ids that name no horse: no payout.
pub open spec fn canonical_multiplier(first: u8, second: u8) -> u64 {
    match (first, second) {
        (0, 1) => 2,
        (0, 2) => 3,
        (0, 3) => 10,
        (0, 4) => 30,
        (0, 5) => 60,
        (1, 0) => 3,
        (1, 2) => 5,
        (1, 3) => 20,
        (1, 4) => 125,
        (1, 5) => 175,
        (2, 0) => 4,
        (2, 1) => 6,
        (2, 3) => 8,
        (2, 4) => 80,
        (2, 5) => 100,
        (3, 0) => 8,
        (3, 1) => 15,
        (3, 2) => 12,
        (3, 4) => 250,
        (3, 5) => 500,
        (4, 0) => 40,
        (4, 1) => 150,
        (4, 2) => 100,
        (4, 3) => 300,
        (4, 5) => 1000,
        (5, 0) => 80,
        (5, 1) => 250,
        (5, 2) => 200,
        (5, 3) => 600,
        (5, 4) => 1500,
        _ => 0,
    }
}

/// Whether `first` and `second` name two different horses.
pub open spec fn valid_pair(first: u8, second: u8) -> bool {
    first < NUM_HORSES && second < NUM_HORSES && first != second
}

/// The canonical table pays on exactly the pairs of two different horses.
pub proof fn lemma_canonical_pays_valid_pairs(first: u8, second: u8)
    ensures
        canonical_multiplier(first, second) > 0 <==> valid_pair(first, second),
        canonical_multiplier(first, second) <= 1500,
{
}

/// A table of payout multipliers, one cell for each ordered pair of horse
/// ids, stored row by row.
#[derive(Clone, Copy, Debug)]
pub struct OddsTable {
    cells: [u64; 36],
}

impl View for OddsTable {
    type V = Map<(u8, u8), u64>;

    /// The multiplier of every pair of ids below six.
    closed spec fn view(&self) -> Map<(u8, u8), u64> {
        Map::new(
            |pair: (u8, u8)| pair.0 < NUM_HORSES && pair.1 < NUM_HORSES,
            |pair: (u8, u8)| self.cells[pair.0 * 6 + pair.1],
        )
    }
}

/// The canonical table as a map over all pairs of ids below six.
pub open spec fn canonical_odds() -> Map<(u8, u8), u64> {
    Map::new(
        |pair: (u8, u8)| pair.0 < NUM_HORSES && pair.1 < NUM_HORSES,
        |pair: (u8, u8)| canonical_multiplier(pair.0, pair.1),
    )
}

/// What a lookup in `odds` gives: the cell of the pair, and zero for a pair
/// outside the table.
pub open spec fn multiplier_in(odds: Map<(u8, u8), u64>, first: u8, second: u8) -> u64 {
    if odds.dom().contains((first, second)) {
        odds[(first, second)]
    } else {
        0
    }
}

impl OddsTable {
    /// A table that pays on nothing.
    pub fn new() -> (table: OddsTable)
        ensures
            table@ == Map::new(
                |pair: (u8, u8)| pair.0 < NUM_HORSES && pair.1 < NUM_HORSES,
                |pair: (u8, u8)| 0u64,
            ),
    {
        let table = OddsTable { cells: [0; 36] };
        assert(table@ =~= Map::new(
            |pair: (u8, u8)| pair.0 < NUM_HORSES && pair.1 < NUM_HORSES,
            |pair: (u8, u8)| 0u64,
        ));
        table
    }

    /// Writes the multiplier of one pair. A pair outside the table is ignored.
    pub(crate) fn set_multiplier(&mut self, first: u8, second: u8, multiplier: u64)
        ensures
            final(self)@ == if first < NUM_HORSES && second < NUM_HORSES {
                old(self)@.insert((first, second), multiplier)
            } else {
                old(self)@
            },
    {
        if (first as usize) < NUM_HORSES && (second as usize) < NUM_HORSES {
            let index = (first as usize) * 6 + (second as usize);
            self.cells[index] = multiplier;
            assert(final(self)@ =~= old(self)@.insert((first, second), multiplier));
        }
    }

    /// The multiplier of a pair; zero for a pair outside the table.
    pub fn get_multiplier(&self, first: u8, second: u8) -> (multiplier: u64)
        ensures
            multiplier == multiplier_in(self@, first, second),
    {
        if (first as usize) < NUM_HORSES && (second as usize) < NUM_HORSES {
            let index = (first as usize) * 6 + (second as usize);
            self.cells[index]
        } else {
            0
        }
    }
}

/// Builds the canonical table, pair by pair.
pub fn initialize_multipliers() -> (table: OddsTable)
    ensures
        table@ == canonical_odds(),
{
    let mut table = OddsTable::new();

    table.set_multiplier(0, 5, 60);
    table.set_multiplier(0, 4, 30);
    table.set_multiplier(0, 3, 10);
    table.set_multiplier(0, 2, 3);
    table.set_multiplier(0, 1, 2);

    table.set_multiplier(1, 5, 175);
    table.set_multiplier(1, 4, 125);
    table.set_multiplier(1, 3, 20);
    table.set_multiplier(1, 2, 5);
    table.set_multiplier(1, 0, 3);

    table.set_multiplier(2, 5, 100);
    table.set_multiplier(2, 4, 80);
    table.set_multiplier(2, 3, 8);
    table.set_multiplier(2, 1, 6);
    table.set_multiplier(2, 0, 4);

    table.set_multiplier(3, 5, 500);
    table.set_multiplier(3, 4, 250);
    table.set_multiplier(3, 2, 12);
    table.set_multiplier(3, 1, 15);
    table.set_multiplier(3, 0, 8);

    table.set_multiplier(4, 5, 1000);
    table.set_multiplier(4, 3, 300);
    table.set_multiplier(4, 2, 100);
    table.set_multiplier(4, 1, 150);
    table.set_multiplier(4, 0, 40);

    table.set_multiplier(5, 4, 1500);
    table.set_multiplier(5, 3, 600);
    table.set_multiplier(5, 2, 200);
    table.set_multiplier(5, 1, 250);
    table.set_multiplier(5, 0, 80);

    assert(table@ =~= canonical_odds());
    table
}

} // verus!
