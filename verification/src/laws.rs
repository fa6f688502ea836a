//! What holds of the engine as a whole, proved from the model.

use vstd::arithmetic::div_mod::{lemma_div_is_ordered_by_denominator, lemma_div_pos_is_pos};
use vstd::prelude::*;
use crate::account::AccountId;
use crate::model::{
    has_winning_wager,
    lemma_nothing_owed_without_winning_wager,
    lemma_one_payout_for_each_winning_wager,
    lemma_winnings_of_prefix,
    payout_for,
    winning_bet,
    winning_count,
    wins,
    winnings,
    RaceView,
};
use crate::odds::{canonical_multiplier, canonical_odds, valid_pair};
use crate::outcome::{
    draw_through,
    finish_order,
    finish_times,
    lemma_draw_through_consistent,
    lemma_pool_not_empty,
    placed,
};
use crate::probability::{all_pairs, exacta_probability, listed, probability_table, table_line};
use crate::strength::{lemma_strength_bounds, normalized_share, strength_of, NUM_HORSES};
use crate::types::{Error, ExactaBet, Payout, RaceStatus};

verus! {

/// The outcome of a race depends on the seed alone: two engines started with
/// the same seed, whatever else they hold, finish in the same order, with
/// the same times and the same winning pair.
pub proof fn lemma_same_seed_same_outcome(
    a: RaceView,
    b: RaceView,
    seed: u64,
    now_a: u64,
    now_b: u64,
)
    ensures
        a.started(seed, now_a).outcome().rankings == b.started(seed, now_b).outcome().rankings,
        a.started(seed, now_a).outcome().finish_times == b.started(
            seed,
            now_b,
        ).outcome().finish_times,
        a.started(seed, now_a).outcome().winning_exacta == b.started(
            seed,
            now_b,
        ).outcome().winning_exacta,
        a.started(seed, now_a).outcome().seed_used == seed,
{
}

/// Every seed gives a strict finish order over all six horses: each horse
/// has exactly one place. The time of position `k` is between `50 + 2k` and
/// `54 + 2k`.
pub proof fn lemma_finish_order_is_complete(seed: u64)
    ensures
        finish_order(seed).len() == NUM_HORSES,
        finish_times(seed).len() == NUM_HORSES,
        forall|k: int| 0 <= k < NUM_HORSES ==> #[trigger] finish_order(seed)[k] < NUM_HORSES,
        forall|j: int, k: int|
            0 <= j < k < NUM_HORSES ==> finish_order(seed)[j] != finish_order(seed)[k],
        forall|id: int| 0 <= id < NUM_HORSES ==> #[trigger] placed(finish_order(seed), id),
        forall|k: int|
            0 <= k < NUM_HORSES ==> 50 + 2 * k <= #[trigger] finish_times(seed)[k] <= 54 + 2 * k,
{
    lemma_draw_through_consistent(seed, NUM_HORSES as nat);
    assert forall|id: int| 0 <= id < NUM_HORSES implies #[trigger] placed(
        finish_order(seed),
        id,
    ) by {
        lemma_all_placed(seed, id);
    }
    assert forall|k: int| 0 <= k < NUM_HORSES implies 50 + 2 * k <= #[trigger] finish_times(
        seed,
    )[k] <= 54 + 2 * k by {
        lemma_finish_time_range(seed, NUM_HORSES as nat, k);
    }
}

/// After all six positions no horse is left in the pool.
proof fn lemma_all_placed(seed: u64, id: int)
    requires
        0 <= id < NUM_HORSES,
    ensures
        placed(finish_order(seed), id),
{
    lemma_draw_through_consistent(seed, NUM_HORSES as nat);
    let r = finish_order(seed);
    if !placed(r, id) {
        // Six different ids below six fill all the places, so each id occurs.
        assert(r[0] != id && r[1] != id && r[2] != id && r[3] != id && r[4] != id && r[5] != id);
        assert(r[0] < 6 && r[1] < 6 && r[2] < 6 && r[3] < 6 && r[4] < 6 && r[5] < 6);
        assert(false);
    }
}

/// The finish time of a settled position lies in that position's range.
proof fn lemma_finish_time_range(seed: u64, positions: nat, k: int)
    requires
        positions <= NUM_HORSES,
        0 <= k < positions,
    ensures
        draw_through(seed, positions).finish_times.len() == positions,
        50 + 2 * k <= draw_through(seed, positions).finish_times[k] <= 54 + 2 * k,
    decreases positions,
{
    lemma_draw_through_consistent(seed, positions);
    lemma_draw_through_consistent(seed, (positions - 1) as nat);
    lemma_pool_not_empty(draw_through(seed, (positions - 1) as nat), positions - 1);
    if k < positions - 1 {
        lemma_finish_time_range(seed, (positions - 1) as nat, k);
    }
}

/// The probability formula on strengths.
pub open spec fn probability_of_strengths(first: int, second: int) -> int {
    (first * 10000 / 21) * (second * 10000 / (21 - first)) / 10000
}

/// With the second strength fixed, the formula does not fall as the first
/// strength rises: both factors grow, the share of the first horse and the
/// share of the second among the rest.
proof fn lemma_probability_grows(weaker: int, stronger: int, second: int)
    requires
        1 <= weaker <= stronger <= 6,
        1 <= second <= 6,
    ensures
        probability_of_strengths(weaker, second) <= probability_of_strengths(stronger, second),
{
    let share_weaker = weaker * 10000 / 21;
    let share_stronger = stronger * 10000 / 21;
    let rest_weaker = second * 10000 / (21 - weaker);
    let rest_stronger = second * 10000 / (21 - stronger);
    lemma_div_is_ordered_by_denominator(second * 10000, 21 - stronger, 21 - weaker);
    lemma_div_pos_is_pos(second * 10000, 21 - weaker);
    assert(share_weaker * rest_weaker <= share_stronger * rest_stronger) by (nonlinear_arith)
        requires
            0 <= share_weaker <= share_stronger,
            0 <= rest_weaker <= rest_stronger,
    ;
}

/// The strongest pairing is likelier than the weakest, and a stronger horse
/// in first place never makes an exacta less likely: with the same horse in
/// second place, the probability does not fall as the strength of the first
/// horse rises.
pub proof fn lemma_probability_follows_strength(stronger: u8, weaker: u8, second: u8)
    requires
        valid_pair(stronger, second),
        valid_pair(weaker, second),
        strength_of(stronger as int) >= strength_of(weaker as int),
    ensures
        exacta_probability(0, 1) > exacta_probability(5, 4),
        exacta_probability(stronger, second) >= exacta_probability(weaker, second),
{
    lemma_strength_bounds(stronger as int);
    lemma_strength_bounds(weaker as int);
    lemma_strength_bounds(second as int);
    lemma_strength_bounds(0);
    lemma_strength_bounds(1);
    lemma_strength_bounds(4);
    lemma_strength_bounds(5);
    assert(exacta_probability(0, 1) == 952) by {
        assert(6 * 10000 / 21 == 2857);
        assert(5 * 10000 / 15 == 3333);
        assert(2857 * 3333 / 10000 == 952);
    }
    assert(exacta_probability(5, 4) == 47) by {
        assert(1 * 10000 / 21 == 476);
        assert(2 * 10000 / 20 == 1000);
        assert(476 * 1000 / 10000 == 47);
    }
    assert(exacta_probability(stronger, second) == probability_of_strengths(
        strength_of(stronger as int) as int,
        strength_of(second as int) as int,
    ));
    assert(exacta_probability(weaker, second) == probability_of_strengths(
        strength_of(weaker as int) as int,
        strength_of(second as int) as int,
    ));
    lemma_probability_grows(
        strength_of(weaker as int) as int,
        strength_of(stronger as int) as int,
        strength_of(second as int) as int,
    );
}

/// The table lists exactly what pays: every line is for two different
/// horses, carries the pair's multiplier, which is positive, and the pair's
/// probability. A pair that pays nothing has no line.
pub proof fn lemma_table_lists_paying_pairs(line: int)
    requires
        0 <= line < probability_table(canonical_odds()).len(),
    ensures
        valid_pair(
            probability_table(canonical_odds())[line].first,
            probability_table(canonical_odds())[line].second,
        ),
        probability_table(canonical_odds())[line].multiplier == canonical_multiplier(
            probability_table(canonical_odds())[line].first,
            probability_table(canonical_odds())[line].second,
        ),
        probability_table(canonical_odds())[line].multiplier > 0,
        probability_table(canonical_odds())[line].probability == exacta_probability(
            probability_table(canonical_odds())[line].first,
            probability_table(canonical_odds())[line].second,
        ),
        probability_table(canonical_odds()).len() <= 36,
{
    let odds = canonical_odds();
    let pairs = all_pairs().filter(listed(odds));
    all_pairs().lemma_filter_len(listed(odds));
    all_pairs().lemma_filter_pred(listed(odds), line);
    let pair = pairs[line];
    assert(probability_table(odds)[line] == table_line(odds)(pair));
    lemma_probability_in_range(pair.0, pair.1);
}

/// A probability is a fraction of the whole: between zero and `PRECISION`.
pub proof fn lemma_probability_in_range(first: u8, second: u8)
    ensures
        0 <= exacta_probability(first, second) <= 10000,
{
    if valid_pair(first, second) {
        lemma_strength_bounds(first as int);
        lemma_strength_bounds(second as int);
        let strength_first = strength_of(first as int) as int;
        let strength_second = strength_of(second as int) as int;
        let share = normalized_share(first as int);
        let rest = strength_second * 10000 / (21 - strength_first);
        lemma_div_pos_is_pos(strength_second * 10000, 21 - strength_first);
        lemma_div_is_ordered_by_denominator(strength_second * 10000, 15, 21 - strength_first);
        assert(0 <= share * rest <= 3000 * 4000) by (nonlinear_arith)
            requires
                0 <= share <= 3000,
                0 <= rest <= 4000,
        ;
    }
}

/// An accepted debit is covered: a withdrawal or a wager that is not refused
/// lowers the balance by exactly its amount, to no less than zero, and a
/// wager touches no other balance. One that the balance does not cover is
/// refused.
pub proof fn lemma_debits_are_covered(
    state: RaceView,
    caller: AccountId,
    bet: ExactaBet,
    other: AccountId,
    amount: u128,
)
    ensures
        state.balance(caller) >= amount ==> state.withdrawn(caller, amount).balance(caller)
            == state.balance(caller) - amount,
        state.bet_refusal(caller, bet.bettor, bet.first_pick, bet.second_pick, bet.amount)
            is None ==> state.with_bet(bet).balance(bet.bettor) == state.balance(bet.bettor)
            - bet.amount,
        other != bet.bettor ==> state.with_bet(bet).balance(other) == state.balance(other),
        state.balance(bet.bettor) < bet.amount ==> state.bet_refusal(
            caller,
            bet.bettor,
            bet.first_pick,
            bet.second_pick,
            bet.amount,
        ) is Some,
{
}

/// A wager adds to what its bettor is owed its stake times the multiplier if
/// it is on the winning pair, and nothing if it is not; it adds nothing to
/// what anyone else is owed.
pub proof fn lemma_wager_winnings(
    bets: Seq<ExactaBet>,
    bet: ExactaBet,
    account: AccountId,
    winning: (u8, u8),
    multiplier: u64,
)
    ensures
        winnings(bets.push(bet), account, winning, multiplier) == winnings(
            bets,
            account,
            winning,
            multiplier,
        ) + if wins(bet, winning) && bet.bettor == account {
            bet.amount * multiplier
        } else {
            0
        },
{
    assert(bets.push(bet).drop_last() =~= bets);
}

/// Settlement is exact: each account ends with what it held plus what it is
/// owed, and nobody ends with less.
pub proof fn lemma_settlement_is_exact(state: RaceView, account: AccountId)
    requires
        state.settlement_fits(),
    ensures
        state.settled().balance(account) == state.balance(account) + state.owed(account),
        state.owed(account) >= 0,
{
    lemma_winnings_of_prefix(
        state.bets,
        0,
        account,
        state.latest_result.winning_exacta,
        state.winning_multiplier(),
    );
}

/// Settlement pays the wagers on the winning pair and no others: there is
/// one payout for each of them, an account without such a wager keeps what
/// it held, and no account ends with less than it held.
pub proof fn lemma_settlement_pays_winning_wagers_only(state: RaceView, account: AccountId)
    requires
        state.settlement_fits(),
    ensures
        state.due().len() == winning_count(state.bets, state.latest_result.winning_exacta),
        !has_winning_wager(state.bets, account, state.latest_result.winning_exacta)
            ==> state.settled().balance(account) == state.balance(account),
        state.settled().balance(account) >= state.balance(account),
{
    let winning = state.latest_result.winning_exacta;
    let multiplier = state.winning_multiplier();
    lemma_one_payout_for_each_winning_wager(state.bets, winning, multiplier);
    lemma_winnings_of_prefix(state.bets, 0, account, winning, multiplier);
    if !has_winning_wager(state.bets, account, winning) {
        lemma_nothing_owed_without_winning_wager(state.bets, account, winning, multiplier);
    }
}

/// Settlement of a single wager. On the winning pair it gives one payout,
/// of the stake times the pair's multiplier, and the bettor's balance grows
/// by that much. On any other pair it gives no payout and no balance
/// changes.
pub proof fn lemma_single_wager_settlement(state: RaceView, bet: ExactaBet, account: AccountId)
    requires
        state.bets == seq![bet],
        state.settlement_fits(),
    ensures
        wins(bet, state.latest_result.winning_exacta) ==> state.due() == seq![
            payout_for(state.latest_result.winning_exacta, state.winning_multiplier())(bet),
        ] && state.settled().balance(bet.bettor) == state.balance(bet.bettor) + bet.amount
            * state.winning_multiplier(),
        !wins(bet, state.latest_result.winning_exacta) ==> state.due() == Seq::<Payout>::empty()
            && state.settled().balance(account) == state.balance(account),
        account != bet.bettor ==> state.settled().balance(account) == state.balance(account),
{
    let winning = state.latest_result.winning_exacta;
    let multiplier = state.winning_multiplier();
    let none = Seq::<ExactaBet>::empty();
    assert(state.bets =~= none.push(bet));
    assert(state.bets.drop_last() =~= none);
    assert(state.bets.last() == bet);
    assert(none.filter(winning_bet(winning)) =~= none) by {
        reveal(Seq::filter);
    }
    none.lemma_filter_push(bet, winning_bet(winning));
    assert(winnings(none, bet.bettor, winning, multiplier) == 0);
    assert(winnings(none, account, winning, multiplier) == 0);
    if wins(bet, winning) {
        assert(state.due() =~= seq![payout_for(winning, multiplier)(bet)]);
    } else {
        assert(state.due() =~= Seq::<Payout>::empty());
    }
}

/// A stake of 100 on horse 0 winning ahead of horse 5, the only wager, when
/// the race ends that way: the pair pays 60, so there is one payout, of
/// 6000, and the bettor's balance grows by 6000.
pub proof fn lemma_hundred_on_zero_ahead_of_five(state: RaceView, bet: ExactaBet)
    requires
        state.bets == seq![bet],
        bet.amount == 100,
        bet.first_pick == 0,
        bet.second_pick == 5,
        state.latest_result.winning_exacta == (0u8, 5u8),
        state.settlement_fits(),
    ensures
        state.winning_multiplier() == 60,
        state.due() == seq![
            Payout {
                bettor: bet.bettor,
                bet_amount: 100,
                multiplier: 60,
                payout_amount: 6000,
                exacta: (0, 5),
            },
        ],
        state.settled().balance(bet.bettor) == state.balance(bet.bettor) + 6000,
{
    lemma_single_wager_settlement(state, bet, bet.bettor);
}

/// Settlement runs once: the state it leaves refuses a second settlement, so
/// nothing is credited twice.
pub proof fn lemma_settlement_runs_once(state: RaceView)
    requires
        state.settlement_refusal() is None,
    ensures
        state.settled().settlement_refusal() == Some(Error::RaceNotFinished),
{
}

/// The lifecycle: wagers, then the start, then the run, then settlement,
/// then the reset that opens wagering again. Each step is refused in the
/// phase that the step before it leaves, and no race starts again, alone or
/// together with its run, before the reset.
pub proof fn lemma_lifecycle(state: RaceView, seed: u64, now: u64)
    requires
        state.status == RaceStatus::Betting,
    ensures
        state.run_refusal() == Some(Error::RaceNotInProgress),
        state.settlement_refusal() == Some(Error::RaceNotFinished),
        state.started(seed, now).status == RaceStatus::Racing,
        state.started(seed, now).start_refusal(state.owner) == Some(Error::RaceNotInBettingPhase),
        state.started(seed, now).settlement_refusal() == Some(Error::RaceNotFinished),
        state.started(seed, now).raced().status == RaceStatus::Finished,
        state.started(seed, now).raced().run_refusal() == Some(Error::RaceNotInProgress),
        state.started(seed, now).raced().start_refusal(state.owner) == Some(
            Error::RaceNotInBettingPhase,
        ),
        state.started(seed, now).raced().settled().status == RaceStatus::Closed,
        state.started(seed, now).raced().settled().start_refusal(state.owner) == Some(
            Error::RaceNotInBettingPhase,
        ),
        state.started(seed, now).raced().settled().reopened(now).status == RaceStatus::Betting,
{
}

/// A wager on the same horse twice is refused for its picks, whatever its
/// stake and whatever the bettor holds.
pub proof fn lemma_same_pick_is_refused(
    state: RaceView,
    bettor: AccountId,
    pick: u8,
    amount: u128,
)
    requires
        state.status == RaceStatus::Betting,
    ensures
        state.bet_refusal(state.owner, bettor, pick, pick, amount) == Some(
            if pick >= NUM_HORSES {
                Error::InvalidHorseId
            } else {
                Error::SameHorsePicked
            },
        ),
{
}

} // verus!
