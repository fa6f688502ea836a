//! The engine as a mathematical state, and what each operation makes of it.
//! The engine's contracts are stated over these functions.

use vstd::prelude::*;
use crate::account::AccountId;
use crate::odds::{canonical_multiplier, multiplier_in, canonical_odds};
use crate::outcome::{finish_order, finish_times};
use crate::strength::NUM_HORSES;
use crate::types::{Error, ExactaBet, Payout, RaceResultView, RaceStatus, no_result};

verus! {

/// The state of the engine.
pub struct RaceView {
    pub owner: AccountId,
    pub race_id: u64,
    pub status: RaceStatus,
    /// The wagers on the current race, in the order they were placed.
    pub bets: Seq<ExactaBet>,
    /// The results of all races run, oldest first.
    pub race_results: Seq<RaceResultView>,
    pub latest_result: RaceResultView,
    /// The payouts of the current race.
    pub payouts: Seq<Payout>,
    pub current_seed: u64,
    pub race_start_time: u64,
    pub betting_start_time: u64,
    pub total_pot: u128,
    /// What each account holds.
    pub balances: Map<AccountId, u128>,
}

/// The sum of the stakes of `bets`.
pub open spec fn stake_sum(bets: Seq<ExactaBet>) -> int
    decreases bets.len(),
{
    if bets.len() == 0 {
        0
    } else {
        stake_sum(bets.drop_last()) + bets.last().amount
    }
}

/// The stakes of the first `count` wagers sum to no less than zero and no
/// more than the stakes of all of them.
pub proof fn lemma_stake_sum_of_prefix(bets: Seq<ExactaBet>, count: int)
    requires
        0 <= count <= bets.len(),
    ensures
        0 <= stake_sum(bets.take(count)) <= stake_sum(bets),
    decreases bets.len(),
{
    if bets.len() == 0 || count == bets.len() {
        assert(bets.take(count) =~= bets);
        if bets.len() > 0 {
            lemma_stake_sum_of_prefix(bets.drop_last(), count - 1);
        }
    } else {
        lemma_stake_sum_of_prefix(bets.drop_last(), count);
        assert(bets.drop_last().take(count) =~= bets.take(count));
    }
}

/// Whether a wager predicted the winning pair exactly.
pub open spec fn wins(bet: ExactaBet, winning: (u8, u8)) -> bool {
    bet.first_pick == winning.0 && bet.second_pick == winning.1
}

/// What `account` is owed on `bets`: stake times multiplier for each of its
/// wagers on the winning pair, nothing for any other.
pub open spec fn winnings(
    bets: Seq<ExactaBet>,
    account: AccountId,
    winning: (u8, u8),
    multiplier: u64,
) -> int
    decreases bets.len(),
{
    if bets.len() == 0 {
        0
    } else {
        winnings(bets.drop_last(), account, winning, multiplier) + if wins(bets.last(), winning)
            && bets.last().bettor == account {
            bets.last().amount * multiplier
        } else {
            0
        }
    }
}

/// One more wager adds its stake times the multiplier to what its bettor is
/// owed, if it is on the winning pair, and nothing to anyone else.
pub proof fn lemma_winnings_step(
    bets: Seq<ExactaBet>,
    count: int,
    account: AccountId,
    winning: (u8, u8),
    multiplier: u64,
)
    requires
        0 <= count < bets.len(),
    ensures
        winnings(bets.take(count + 1), account, winning, multiplier) == winnings(
            bets.take(count),
            account,
            winning,
            multiplier,
        ) + if wins(bets[count], winning) && bets[count].bettor == account {
            bets[count].amount * multiplier
        } else {
            0
        },
        winnings(bets.take(count), account, winning, multiplier) >= 0,
        bets[count].amount * multiplier >= 0,
{
    assert(bets.take(count + 1).drop_last() =~= bets.take(count));
    lemma_winnings_of_prefix(bets.take(count), count, account, winning, multiplier);
    assert(bets.take(count).take(count) =~= bets.take(count));
    assert(bets[count].amount * multiplier >= 0) by (nonlinear_arith)
        requires
            bets[count].amount >= 0,
            multiplier >= 0,
    ;
}

/// What is owed on the first `count` wagers is not negative, and no more
/// than what is owed on all of them.
pub proof fn lemma_winnings_of_prefix(
    bets: Seq<ExactaBet>,
    count: int,
    account: AccountId,
    winning: (u8, u8),
    multiplier: u64,
)
    requires
        0 <= count <= bets.len(),
    ensures
        0 <= winnings(bets.take(count), account, winning, multiplier) <= winnings(
            bets,
            account,
            winning,
            multiplier,
        ),
    decreases bets.len(),
{
    if bets.len() == 0 {
        assert(bets.take(count) =~= bets);
    } else if count == bets.len() {
        assert(bets.take(count) =~= bets);
        lemma_winnings_of_prefix(bets.drop_last(), count - 1, account, winning, multiplier);
        assert(bets.last().amount * multiplier >= 0) by (nonlinear_arith)
            requires
                bets.last().amount >= 0,
                multiplier >= 0,
        ;
    } else {
        lemma_winnings_of_prefix(bets.drop_last(), count, account, winning, multiplier);
        assert(bets.drop_last().take(count) =~= bets.take(count));
        assert(bets.last().amount * multiplier >= 0) by (nonlinear_arith)
            requires
                bets.last().amount >= 0,
                multiplier >= 0,
        ;
    }
}

/// One more wager adds its payout record if it is on the winning pair, and
/// nothing otherwise.
pub proof fn lemma_payouts_due_step(
    bets: Seq<ExactaBet>,
    count: int,
    winning: (u8, u8),
    multiplier: u64,
)
    requires
        0 <= count < bets.len(),
    ensures
        payouts_due(bets.take(count + 1), winning, multiplier) == if wins(bets[count], winning) {
            payouts_due(bets.take(count), winning, multiplier).push(
                payout_for(winning, multiplier)(bets[count]),
            )
        } else {
            payouts_due(bets.take(count), winning, multiplier)
        },
{
    let before = bets.take(count);
    assert(bets.take(count + 1) =~= before.push(bets[count]));
    before.lemma_filter_push(bets[count], winning_bet(winning));
    before.filter(winning_bet(winning)).lemma_push_map_commute(
        payout_for(winning, multiplier),
        bets[count],
    );
}

/// The number of wagers on the winning pair.
pub open spec fn winning_count(bets: Seq<ExactaBet>, winning: (u8, u8)) -> nat
    decreases bets.len(),
{
    if bets.len() == 0 {
        0
    } else {
        winning_count(bets.drop_last(), winning) + if wins(bets.last(), winning) {
            1nat
        } else {
            0nat
        }
    }
}

/// Whether `account` placed a wager on the winning pair.
pub open spec fn has_winning_wager(
    bets: Seq<ExactaBet>,
    account: AccountId,
    winning: (u8, u8),
) -> bool {
    exists|i: int| 0 <= i < bets.len() && wins(#[trigger] bets[i], winning) && bets[i].bettor
        == account
}

/// An account without a wager on the winning pair is owed nothing.
pub proof fn lemma_nothing_owed_without_winning_wager(
    bets: Seq<ExactaBet>,
    account: AccountId,
    winning: (u8, u8),
    multiplier: u64,
)
    requires
        !has_winning_wager(bets, account, winning),
    ensures
        winnings(bets, account, winning, multiplier) == 0,
    decreases bets.len(),
{
    if bets.len() > 0 {
        let earlier = bets.drop_last();
        assert(bets[bets.len() - 1] == bets.last());
        assert forall|i: int| 0 <= i < earlier.len() implies !(wins(
            #[trigger] earlier[i],
            winning,
        ) && earlier[i].bettor == account) by {
            assert(earlier[i] == bets[i]);
        }
        lemma_nothing_owed_without_winning_wager(earlier, account, winning, multiplier);
    }
}

/// There is one payout for each wager on the winning pair, and none besides.
pub proof fn lemma_one_payout_for_each_winning_wager(
    bets: Seq<ExactaBet>,
    winning: (u8, u8),
    multiplier: u64,
)
    ensures
        payouts_due(bets, winning, multiplier).len() == winning_count(bets, winning),
    decreases bets.len(),
{
    if bets.len() == 0 {
        assert(bets.filter(winning_bet(winning)) =~= Seq::<ExactaBet>::empty()) by {
            reveal(Seq::filter);
        }
    } else {
        let earlier = bets.drop_last();
        lemma_one_payout_for_each_winning_wager(earlier, winning, multiplier);
        assert(bets =~= earlier.push(bets.last()));
        earlier.lemma_filter_push(bets.last(), winning_bet(winning));
    }
}

/// The wagers that are paid, as a predicate.
pub open spec fn winning_bet(winning: (u8, u8)) -> spec_fn(ExactaBet) -> bool {
    |bet: ExactaBet| wins(bet, winning)
}

/// The payout record of a winning wager.
pub open spec fn payout_for(winning: (u8, u8), multiplier: u64) -> spec_fn(ExactaBet) -> Payout {
    |bet: ExactaBet|
        Payout {
            bettor: bet.bettor,
            bet_amount: bet.amount,
            multiplier,
            payout_amount: (bet.amount * multiplier) as u128,
            exacta: winning,
        }
}

/// The payouts due on `bets`: one for each wager on the winning pair, in the
/// order the wagers were placed.
pub open spec fn payouts_due(bets: Seq<ExactaBet>, winning: (u8, u8), multiplier: u64) -> Seq<
    Payout,
> {
    bets.filter(winning_bet(winning)).map_values(payout_for(winning, multiplier))
}

impl RaceView {
    /// What `account` holds. An account without a line in the ledger holds
    /// zero.
    pub open spec fn balance(self, account: AccountId) -> u128 {
        if self.balances.dom().contains(account) {
            self.balances[account]
        } else {
            0
        }
    }

    /// The state of a new engine.
    pub open spec fn fresh(owner: AccountId, now: u64) -> RaceView {
        RaceView {
            owner,
            race_id: 0,
            status: RaceStatus::Betting,
            bets: Seq::empty(),
            race_results: Seq::empty(),
            latest_result: no_result(),
            payouts: Seq::empty(),
            current_seed: 0,
            race_start_time: 0,
            betting_start_time: now,
            total_pot: 0,
            balances: Map::total(|account: AccountId| 0u128),
        }
    }

    /// The state after `amount` is credited to `account`.
    pub open spec fn deposited(self, account: AccountId, amount: u128) -> RaceView {
        RaceView {
            balances: self.balances.insert(account, (self.balance(account) + amount) as u128),
            ..self
        }
    }

    /// The state after `amount` is taken from `account`.
    pub open spec fn withdrawn(self, account: AccountId, amount: u128) -> RaceView {
        RaceView {
            balances: self.balances.insert(account, (self.balance(account) - amount) as u128),
            ..self
        }
    }

    /// Why a wager is refused, if it is. The checks come in a fixed order:
    /// the caller, the phase, the picks' range, the picks' difference, the
    /// stake, the bettor's balance.
    pub open spec fn bet_refusal(
        self,
        caller: AccountId,
        bettor: AccountId,
        first_pick: u8,
        second_pick: u8,
        amount: u128,
    ) -> Option<Error> {
        if caller != self.owner {
            Some(Error::NotOwner)
        } else if self.status != RaceStatus::Betting {
            Some(Error::BettingClosed)
        } else if first_pick >= NUM_HORSES || second_pick >= NUM_HORSES {
            Some(Error::InvalidHorseId)
        } else if first_pick == second_pick {
            Some(Error::SameHorsePicked)
        } else if amount == 0 {
            Some(Error::ZeroBetAmount)
        } else if self.balance(bettor) < amount {
            Some(Error::InsufficientBalance)
        } else {
            None
        }
    }

    /// The state after a wager is accepted: the stake leaves the bettor's
    /// balance and joins the pot, and the wager is recorded last.
    pub open spec fn with_bet(self, bet: ExactaBet) -> RaceView {
        RaceView {
            balances: self.balances.insert(
                bet.bettor,
                (self.balance(bet.bettor) - bet.amount) as u128,
            ),
            bets: self.bets.push(bet),
            total_pot: (self.total_pot + bet.amount) as u128,
            ..self
        }
    }

    /// Why a start is refused, if it is: the caller is checked first, then
    /// the phase.
    pub open spec fn start_refusal(self, caller: AccountId) -> Option<Error> {
        if caller != self.owner {
            Some(Error::NotOwner)
        } else if self.status != RaceStatus::Betting {
            Some(Error::RaceNotInBettingPhase)
        } else {
            None
        }
    }

    /// The state after the race is started with `seed`.
    pub open spec fn started(self, seed: u64, now: u64) -> RaceView {
        RaceView {
            current_seed: seed,
            race_id: (self.race_id + 1) as u64,
            status: RaceStatus::Racing,
            race_start_time: now,
            ..self
        }
    }

    /// Why a run is refused, if it is.
    pub open spec fn run_refusal(self) -> Option<Error> {
        if self.status != RaceStatus::Racing {
            Some(Error::RaceNotInProgress)
        } else {
            None
        }
    }

    /// The result of running the race in this state. The finish order and
    /// times depend on the seed alone.
    pub open spec fn outcome(self) -> RaceResultView {
        let rankings = finish_order(self.current_seed);
        RaceResultView {
            race_id: self.race_id,
            rankings,
            finish_times: finish_times(self.current_seed),
            winning_exacta: (rankings[0], rankings[1]),
            total_pot: self.total_pot,
            seed_used: self.current_seed,
        }
    }

    /// The state after the race is run.
    pub open spec fn raced(self) -> RaceView {
        RaceView {
            latest_result: self.outcome(),
            race_results: self.race_results.push(self.outcome()),
            status: RaceStatus::Finished,
            ..self
        }
    }

    /// Why settlement is refused, if it is.
    pub open spec fn settlement_refusal(self) -> Option<Error> {
        if self.status != RaceStatus::Finished {
            Some(Error::RaceNotFinished)
        } else {
            None
        }
    }

    /// The multiplier on the latest result's winning pair.
    pub open spec fn winning_multiplier(self) -> u64 {
        canonical_multiplier(self.latest_result.winning_exacta.0, self.latest_result.winning_exacta.1)
    }

    /// What `account` is owed on the latest result.
    pub open spec fn owed(self, account: AccountId) -> int {
        winnings(self.bets, account, self.latest_result.winning_exacta, self.winning_multiplier())
    }

    /// Whether every balance can hold what it is owed.
    pub open spec fn settlement_fits(self) -> bool {
        forall|account: AccountId| self.balance(account) + #[trigger] self.owed(account) <= u128::MAX
    }

    /// The payouts that settling this state produces.
    pub open spec fn due(self) -> Seq<Payout> {
        payouts_due(self.bets, self.latest_result.winning_exacta, self.winning_multiplier())
    }

    /// The state after settlement: every account is credited what it is
    /// owed, the payouts are recorded, and the race is closed.
    pub open spec fn settled(self) -> RaceView {
        RaceView {
            balances: Map::total(
                |account: AccountId| (self.balance(account) + self.owed(account)) as u128,
            ),
            payouts: self.payouts + self.due(),
            status: RaceStatus::Closed,
            ..self
        }
    }

    /// The state after a reset: wagers, payouts, pot and seed are cleared and
    /// wagering opens again. Balances, results and the race id stay.
    pub open spec fn reopened(self, now: u64) -> RaceView {
        RaceView {
            bets: Seq::empty(),
            payouts: Seq::empty(),
            total_pot: 0,
            status: RaceStatus::Betting,
            betting_start_time: now,
            current_seed: 0,
            ..self
        }
    }
}

} // verus!
