//! The outcome engine: a seeded generator and a weighted draw without
//! replacement that turns a seed into a full finish order.

use vstd::arithmetic::div_mod::{lemma_fundamental_div_mod, lemma_mod_multiples_vanish};
use vstd::prelude::*;
use crate::strength::{
    lemma_strength_bounds,
    strength_of,
    HORSE_STRENGTHS,
    NUM_HORSES,
    TOTAL_STRENGTH,
};

verus! {

/// Multiplier of the linear congruential generator.
pub const LCG_MULTIPLIER: u64 = 1103515245;

/// Increment of the linear congruential generator.
pub const LCG_INCREMENT: u64 = 12345;

/// Modulus of the linear congruential generator, two to the power 31.
pub const LCG_MODULUS: u64 = 2147483648;

/// The generator's next state: `(state * A + C) mod M`.
pub open spec fn lcg_next(state: u64) -> u64 {
    ((state * LCG_MULTIPLIER + LCG_INCREMENT) % (LCG_MODULUS as int)) as u64
}

/// Advances the generator by one step.
pub fn next_random(state: u64) -> (next: u64)
    ensures
        next == lcg_next(state),
        next < LCG_MODULUS,
{
    let product = state.wrapping_mul(LCG_MULTIPLIER);
    let sum = product.wrapping_add(LCG_INCREMENT);
    let next = sum % LCG_MODULUS;
    proof {
        let exact: int = state * LCG_MULTIPLIER;
        lemma_fundamental_div_mod(exact, 0x1_0000_0000_0000_0000);
        let wraps: int = exact / 0x1_0000_0000_0000_0000 + if product + LCG_INCREMENT > u64::MAX {
            1int
        } else {
            0int
        };
        lemma_wrapping_keeps_residue(exact + LCG_INCREMENT, sum as int, wraps);
    }
    next
}

/// Dropping multiples of two to the power 64 does not change a value modulo
/// two to the power 31.
proof fn lemma_wrapping_keeps_residue(exact: int, wrapped: int, wraps: int)
    requires
        wrapped == exact - 0x1_0000_0000_0000_0000 * wraps,
    ensures
        wrapped % 0x8000_0000 == exact % 0x8000_0000,
{
    lemma_mod_multiples_vanish(-(0x2_0000_0000 * wraps), exact, 0x8000_0000);
}

/// Combined strength of the horses with an id below `upto` that are still in
/// the pool.
pub open spec fn pool_strength(available: Seq<bool>, upto: int) -> nat
    decreases upto,
{
    if upto <= 0 {
        0
    } else {
        pool_strength(available, upto - 1) + if available[upto - 1] {
            strength_of(upto - 1)
        } else {
            0
        }
    }
}

/// The horse that a draw picks: scanning ids upwards from `from`, the first
/// horse in the pool whose cumulative pool strength exceeds `draw`.
pub open spec fn selected(available: Seq<bool>, draw: int, from: int) -> int
    decreases NUM_HORSES - from,
{
    if from < 0 || from >= NUM_HORSES {
        0
    } else if available[from] && draw < pool_strength(available, from + 1) {
        from
    } else {
        selected(available, draw, from + 1)
    }
}

/// Adds up the strengths of the horses still in the pool.
pub fn remaining_strength(available: &[bool; 6]) -> (total: u64)
    ensures
        total == pool_strength(available@, NUM_HORSES as int),
        total <= TOTAL_STRENGTH,
{
    let mut total: u64 = 0;
    let mut i: usize = 0;
    while i < NUM_HORSES
        invariant
            i <= NUM_HORSES,
            total == pool_strength(available@, i as int),
            total <= 6 * i,
        decreases NUM_HORSES - i,
    {
        proof {
            lemma_strength_bounds(i as int);
        }
        if available[i] {
            total = total + HORSE_STRENGTHS[i];
        }
        i = i + 1;
    }
    proof {
        reveal_with_fuel(pool_strength, 7);
    }
    total
}

/// A draw below the pool's strength picks a horse that is in the pool, and
/// the draw falls inside that horse's share of the cumulative strength.
pub proof fn lemma_selected_in_pool(available: Seq<bool>, draw: int, from: int)
    requires
        available.len() == NUM_HORSES,
        0 <= from <= NUM_HORSES,
        pool_strength(available, from) <= draw < pool_strength(available, NUM_HORSES as int),
    ensures
        from <= selected(available, draw, from) < NUM_HORSES,
        available[selected(available, draw, from)],
        pool_strength(available, selected(available, draw, from)) <= draw,
        draw < pool_strength(available, selected(available, draw, from) + 1),
    decreases NUM_HORSES - from,
{
    if from < NUM_HORSES && !(available[from] && draw < pool_strength(available, from + 1)) {
        lemma_selected_in_pool(available, draw, from + 1);
    }
}

/// Picks the horse for one position: the first horse in id order, among those
/// still in the pool, whose cumulative strength exceeds `draw`.
pub fn select_horse(available: &[bool; 6], draw: u64) -> (id: u8)
    ensures
        id == selected(available@, draw as int, 0),
        id < NUM_HORSES,
{
    let mut cumulative: u64 = 0;
    let mut i: usize = 0;
    while i < NUM_HORSES
        invariant
            i <= NUM_HORSES,
            cumulative == pool_strength(available@, i as int),
            cumulative <= 6 * i,
            selected(available@, draw as int, 0) == selected(available@, draw as int, i as int),
        decreases NUM_HORSES - i,
    {
        proof {
            lemma_strength_bounds(i as int);
        }
        if available[i] {
            cumulative = cumulative + HORSE_STRENGTHS[i];
            if draw < cumulative {
                return i as u8;
            }
        }
        i = i + 1;
    }
    0
}

/// A draw in progress: the generator's state, which horses are still in the
/// pool, and the finish order and finish times settled so far.
pub struct DrawState {
    pub rng: u64,
    pub available: Seq<bool>,
    pub rankings: Seq<u8>,
    pub finish_times: Seq<u64>,
}

/// The draw before any position is settled: every horse is in the pool.
pub open spec fn draw_start(seed: u64) -> DrawState {
    DrawState {
        rng: seed,
        available: Seq::new(NUM_HORSES as nat, |i: int| true),
        rankings: Seq::empty(),
        finish_times: Seq::empty(),
    }
}

/// Settles one position. The generator advances once for the pick and once
/// for the finish time. With no strength left in the pool nothing changes.
pub open spec fn draw_step(state: DrawState, position: int) -> DrawState {
    let remaining = pool_strength(state.available, NUM_HORSES as int);
    if remaining == 0 {
        state
    } else {
        let pick_state = lcg_next(state.rng);
        let winner = selected(state.available, pick_state as int % remaining as int, 0);
        let time_state = lcg_next(pick_state);
        DrawState {
            rng: time_state,
            available: state.available.update(winner, false),
            rankings: state.rankings.push(winner as u8),
            finish_times: state.finish_times.push((50 + 2 * position + time_state % 5) as u64),
        }
    }
}

/// The draw after its first `positions` positions are settled.
pub open spec fn draw_through(seed: u64, positions: nat) -> DrawState
    decreases positions,
{
    if positions == 0 {
        draw_start(seed)
    } else {
        draw_step(draw_through(seed, (positions - 1) as nat), positions - 1)
    }
}

/// The finish order that a seed produces.
pub open spec fn finish_order(seed: u64) -> Seq<u8> {
    draw_through(seed, NUM_HORSES as nat).rankings
}

/// The finish times that a seed produces, one for each position.
pub open spec fn finish_times(seed: u64) -> Seq<u64> {
    draw_through(seed, NUM_HORSES as nat).finish_times
}

/// Whether horse `id` has a place in `rankings`.
pub open spec fn placed(rankings: Seq<u8>, id: int) -> bool {
    exists|j: int| 0 <= j < rankings.len() && rankings[j] == id
}

/// What holds of a draw with `positions` positions settled: one horse placed
/// for each, no horse placed twice, and the pool is the horses not yet placed.
pub open spec fn draw_consistent(state: DrawState, positions: int) -> bool {
    &&& state.available.len() == NUM_HORSES
    &&& state.rankings.len() == positions
    &&& state.finish_times.len() == positions
    &&& forall|j: int| 0 <= j < positions ==> state.rankings[j] < NUM_HORSES
    &&& forall|j: int, k: int| 0 <= j < k < positions ==> state.rankings[j] != state.rankings[k]
    &&& forall|i: int|
        0 <= i < NUM_HORSES ==> (state.available[i] <==> !#[trigger] placed(state.rankings, i))
}

/// Fewer than six horses placed leave a horse in the pool, and so strength
/// to draw on.
pub proof fn lemma_pool_not_empty(state: DrawState, positions: int)
    requires
        draw_consistent(state, positions),
        0 <= positions < NUM_HORSES,
    ensures
        0 < pool_strength(state.available, NUM_HORSES as int) <= TOTAL_STRENGTH,
{
    reveal_with_fuel(pool_strength, 7);
    let r = state.rankings;
    // Were all six horses placed, six different places would hold them.
    if placed(r, 0) && placed(r, 1) && placed(r, 2) && placed(r, 3) && placed(r, 4) && placed(
        r,
        5,
    ) {
        let j0 = choose|j: int| 0 <= j < r.len() && r[j] == 0;
        let j1 = choose|j: int| 0 <= j < r.len() && r[j] == 1;
        let j2 = choose|j: int| 0 <= j < r.len() && r[j] == 2;
        let j3 = choose|j: int| 0 <= j < r.len() && r[j] == 3;
        let j4 = choose|j: int| 0 <= j < r.len() && r[j] == 4;
        let j5 = choose|j: int| 0 <= j < r.len() && r[j] == 5;
        assert(false);
    }
}

/// Settling one more position keeps the draw consistent.
pub proof fn lemma_draw_step_consistent(state: DrawState, positions: int)
    requires
        draw_consistent(state, positions),
        0 <= positions < NUM_HORSES,
    ensures
        draw_consistent(draw_step(state, positions), positions + 1),
{
    lemma_pool_not_empty(state, positions);
    let remaining = pool_strength(state.available, NUM_HORSES as int);
    let draw = lcg_next(state.rng) as int % remaining as int;
    lemma_selected_in_pool(state.available, draw, 0);
    let winner = selected(state.available, draw, 0);
    let next = draw_step(state, positions);
    assert(next.rankings[positions] == winner);
    assert forall|i: int| 0 <= i < NUM_HORSES implies (next.available[i] <==> !#[trigger] placed(
        next.rankings,
        i,
    )) by {
        if placed(state.rankings, i) {
            let j = choose|j: int| 0 <= j < state.rankings.len() && state.rankings[j] == i;
            assert(next.rankings[j] == i);
        }
        if placed(next.rankings, i) && i != winner {
            let j = choose|j: int| 0 <= j < next.rankings.len() && next.rankings[j] == i;
            assert(state.rankings[j] == i);
        }
    }
    assert forall|j: int, k: int| 0 <= j < k < positions + 1 implies next.rankings[j]
        != next.rankings[k] by {
        if k == positions {
            assert(state.rankings[j] == next.rankings[j]);
            assert(!placed(state.rankings, winner));
        }
    }
}

/// The draw is consistent after each of its positions.
pub proof fn lemma_draw_through_consistent(seed: u64, positions: nat)
    requires
        positions <= NUM_HORSES,
    ensures
        draw_consistent(draw_through(seed, positions), positions as int),
    decreases positions,
{
    if positions > 0 {
        lemma_draw_through_consistent(seed, (positions - 1) as nat);
        lemma_draw_step_consistent(draw_through(seed, (positions - 1) as nat), positions - 1);
    } else {
        assert forall|i: int| 0 <= i < NUM_HORSES implies !#[trigger] placed(
            draw_start(seed).rankings,
            i,
        ) by {}
    }
}

/// Runs the draw for a seed: the finish order and the finish time of each
/// position.
pub fn draw_finish(seed: u64) -> (outcome: (Vec<u8>, Vec<u64>))
    ensures
        outcome.0@ == finish_order(seed),
        outcome.1@ == finish_times(seed),
        outcome.0@.len() == NUM_HORSES,
        outcome.1@.len() == NUM_HORSES,
{
    let mut rng_state = seed;
    let mut available: [bool; 6] = [true; 6];
    let mut rankings: Vec<u8> = Vec::new();
    let mut finish_times: Vec<u64> = Vec::new();
    let mut position: usize = 0;
    assert(available@ =~= draw_start(seed).available);
    while position < NUM_HORSES
        invariant_except_break
            position <= NUM_HORSES,
            rng_state == draw_through(seed, position as nat).rng,
            available@ == draw_through(seed, position as nat).available,
            rankings@ == draw_through(seed, position as nat).rankings,
            finish_times@ == draw_through(seed, position as nat).finish_times,
        ensures
            position == NUM_HORSES,
            rankings@ == draw_through(seed, position as nat).rankings,
            finish_times@ == draw_through(seed, position as nat).finish_times,
        decreases NUM_HORSES - position,
    {
        proof {
            lemma_draw_through_consistent(seed, position as nat);
            lemma_pool_not_empty(draw_through(seed, position as nat), position as int);
        }
        let remaining = remaining_strength(&available);
        if remaining == 0 {
            // No strength is left to draw on. With these strengths the pool
            // never runs dry before the last position.
            break;
        }
        rng_state = next_random(rng_state);
        let draw = rng_state % remaining;
        let winner = select_horse(&available, draw);
        available[winner as usize] = false;
        rankings.push(winner);

        rng_state = next_random(rng_state);
        let time_variation = rng_state % 5;
        let finish_time = 50 + (position as u64 * 2) + time_variation;
        finish_times.push(finish_time);
        position = position + 1;
    }
    proof {
        lemma_draw_through_consistent(seed, NUM_HORSES as nat);
    }
    (rankings, finish_times)
}

} // verus!
