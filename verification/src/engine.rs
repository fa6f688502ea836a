//! The race engine: one race at a time, from wagering through the draw to
//! settlement.

use vstd::prelude::*;
use crate::account::AccountId;
use crate::ledger::{ledger_map, BalanceLedger, LedgerEntry};
use crate::model::{
    has_winning_wager,
    lemma_nothing_owed_without_winning_wager,
    lemma_one_payout_for_each_winning_wager,
    lemma_payouts_due_step,
    lemma_stake_sum_of_prefix,
    lemma_winnings_of_prefix,
    lemma_winnings_step,
    payouts_due,
    stake_sum,
    winning_bet,
    winning_count,
    winnings,
    RaceView,
};
use crate::odds::{canonical_multiplier, canonical_odds, initialize_multipliers, OddsTable};
use crate::outcome::draw_finish;
use crate::probability::{
    calculate_exacta_probability,
    exacta_probability,
    exacta_probability_table,
    probability_table,
    ExactaProbability,
};
use crate::strength::{
    horse_model,
    horse_models,
    horse_views,
    initialize_horses,
    lemma_strength_bounds,
    normalized_share,
    Horse,
    NUM_HORSES,
};
use crate::types::{
    result_views,
    BetPlaced,
    Deposited,
    Error,
    ExactaBet,
    Payout,
    RaceResult,
    RaceStarted,
    RaceStatus,
    Withdrawn,
};

verus! {

/// The engine. It owns the ledger, the wagers and the lifecycle of the one
/// race that is live.
pub struct HorseRace {
    owner: AccountId,
    race_id: u64,
    status: RaceStatus,
    horses: Vec<Horse>,
    bets: Vec<ExactaBet>,
    race_results: Vec<RaceResult>,
    latest_result: RaceResult,
    payouts: Vec<Payout>,
    current_seed: u64,
    race_start_time: u64,
    betting_start_time: u64,
    total_pot: u128,
    reward_multipliers: OddsTable,
    balances: BalanceLedger,
}

impl View for HorseRace {
    type V = RaceView;

    closed spec fn view(&self) -> RaceView {
        RaceView {
            owner: self.owner,
            race_id: self.race_id,
            status: self.status,
            bets: self.bets@,
            race_results: result_views(self.race_results@),
            latest_result: self.latest_result@,
            payouts: self.payouts@,
            current_seed: self.current_seed,
            race_start_time: self.race_start_time,
            betting_start_time: self.betting_start_time,
            total_pot: self.total_pot,
            balances: self.balances@,
        }
    }
}

/// The engine's state as plain values, to keep it between calls. The horses
/// and the odds are not part of it: they never change.
#[derive(Debug, Clone, PartialEq, Eq)]
pub struct EngineRecord {
    pub owner: AccountId,
    pub race_id: u64,
    pub status: RaceStatus,
    pub bets: Vec<ExactaBet>,
    pub race_results: Vec<RaceResult>,
    pub latest_result: RaceResult,
    pub payouts: Vec<Payout>,
    pub current_seed: u64,
    pub race_start_time: u64,
    pub betting_start_time: u64,
    pub total_pot: u128,
    /// The ledger's lines. Where an account has several, the first counts.
    pub balances: Vec<LedgerEntry>,
}

impl View for EngineRecord {
    type V = RaceView;

    open spec fn view(&self) -> RaceView {
        RaceView {
            owner: self.owner,
            race_id: self.race_id,
            status: self.status,
            bets: self.bets@,
            race_results: result_views(self.race_results@),
            latest_result: self.latest_result@,
            payouts: self.payouts@,
            current_seed: self.current_seed,
            race_start_time: self.race_start_time,
            betting_start_time: self.betting_start_time,
            total_pot: self.total_pot,
            balances: ledger_map(self.balances@),
        }
    }
}

/// Adds up the stakes of `bets`, unless the sum is too large.
pub fn stake_total(bets: &Vec<ExactaBet>) -> (total: Option<u128>)
    ensures
        match total {
            Some(sum) => sum == stake_sum(bets@),
            None => stake_sum(bets@) > u128::MAX,
        },
{
    let mut sum: u128 = 0;
    let mut i: usize = 0;
    assert(bets@.take(0) =~= Seq::<ExactaBet>::empty());
    while i < bets.len()
        invariant
            i <= bets.len(),
            sum == stake_sum(bets@.take(i as int)),
        decreases bets.len() - i,
    {
        proof {
            assert(bets@.take(i + 1).drop_last() =~= bets@.take(i as int));
            lemma_stake_sum_of_prefix(bets@, i + 1);
        }
        match sum.checked_add(bets[i].amount) {
            Some(next) => {
                sum = next;
            },
            None => {
                return None;
            },
        }
        i = i + 1;
    }
    assert(bets@.take(i as int) =~= bets@);
    Some(sum)
}

impl HorseRace {
    /// What holds of every engine: its horses and its odds are those of the
    /// model, and the pot is the sum of the stakes placed.
    pub closed spec fn wf(&self) -> bool {
        &&& horse_views(self.horses@) == horse_models()
        &&& self.reward_multipliers@ == canonical_odds()
        &&& self.total_pot == stake_sum(self.bets@)
    }

    /// The pot is the sum of the stakes of the wagers on the current race.
    pub proof fn lemma_pot_is_stake_sum(&self)
        requires
            self.wf(),
        ensures
            self@.total_pot == stake_sum(self@.bets),
    {
    }

    /// A new engine, owned by `owner`, accepting wagers from `now` on.
    pub fn new(owner: AccountId, now: u64) -> (race: HorseRace)
        ensures
            race.wf(),
            race@ == RaceView::fresh(owner, now),
    {
        let race = HorseRace {
            owner,
            race_id: 0,
            status: RaceStatus::Betting,
            horses: initialize_horses(),
            bets: Vec::new(),
            race_results: Vec::new(),
            latest_result: RaceResult::default(),
            payouts: Vec::new(),
            current_seed: 0,
            race_start_time: 0,
            betting_start_time: now,
            total_pot: 0,
            reward_multipliers: initialize_multipliers(),
            balances: BalanceLedger::new(),
        };
        assert(race@.race_results =~= Seq::empty());
        race
    }

    /// Same as `new`.
    pub fn default(owner: AccountId, now: u64) -> (race: HorseRace)
        ensures
            race.wf(),
            race@ == RaceView::fresh(owner, now),
    {
        HorseRace::new(owner, now)
    }

    /// Credits `amount` to `account`. Only the owner may do so.
    pub fn deposit(&mut self, caller: AccountId, account: AccountId, amount: u128) -> (result:
        Result<Deposited, Error>)
        requires
            old(self).wf(),
            caller == old(self)@.owner ==> old(self)@.balance(account) + amount <= u128::MAX,
        ensures
            final(self).wf(),
            caller != old(self)@.owner ==> result == Err::<Deposited, Error>(Error::NotOwner)
                && final(self)@ == old(self)@,
            caller == old(self)@.owner ==> result == Ok::<Deposited, Error>(
                Deposited { account, amount },
            ) && final(self)@ == old(self)@.deposited(account, amount),
    {
        if caller != self.owner {
            return Err(Error::NotOwner);
        }
        let current_balance = self.balances.balance_of(account);
        self.balances.set_balance(account, current_balance + amount);
        Ok(Deposited { account, amount })
    }

    /// Takes `amount` from the caller's own balance.
    pub fn withdraw(&mut self, caller: AccountId, amount: u128) -> (result: Result<
        Withdrawn,
        Error,
    >)
        requires
            old(self).wf(),
        ensures
            final(self).wf(),
            old(self)@.balance(caller) < amount ==> result == Err::<Withdrawn, Error>(
                Error::InsufficientBalance,
            ) && final(self)@ == old(self)@,
            old(self)@.balance(caller) >= amount ==> result == Ok::<Withdrawn, Error>(
                Withdrawn { account: caller, amount },
            ) && final(self)@ == old(self)@.withdrawn(caller, amount),
    {
        let current_balance = self.balances.balance_of(caller);
        if current_balance < amount {
            return Err(Error::InsufficientBalance);
        }
        self.balances.set_balance(caller, current_balance - amount);
        Ok(Withdrawn { account: caller, amount })
    }

    /// What `account` holds.
    pub fn get_balance(&self, account: AccountId) -> (balance: u128)
        ensures
            balance == self@.balance(account),
    {
        self.balances.balance_of(account)
    }

    /// Why a wager would be refused, if it would be. The checks come in a
    /// fixed order: the caller, the phase, the picks' range, the picks'
    /// difference, the stake, the bettor's balance.
    pub fn check_bet(
        &self,
        caller: AccountId,
        bettor: AccountId,
        first_pick: u8,
        second_pick: u8,
        amount: u128,
    ) -> (refusal: Option<Error>)
        ensures
            refusal == self@.bet_refusal(caller, bettor, first_pick, second_pick, amount),
    {
        if caller != self.owner {
            return Some(Error::NotOwner);
        }
        if self.status != RaceStatus::Betting {
            return Some(Error::BettingClosed);
        }
        if first_pick >= NUM_HORSES as u8 || second_pick >= NUM_HORSES as u8 {
            return Some(Error::InvalidHorseId);
        }
        if first_pick == second_pick {
            return Some(Error::SameHorsePicked);
        }
        if amount == 0 {
            return Some(Error::ZeroBetAmount);
        }
        let current_balance = self.balances.balance_of(bettor);
        if current_balance < amount {
            return Some(Error::InsufficientBalance);
        }
        None
    }

    /// Places a wager for `bettor` on `first_pick` winning ahead of
    /// `second_pick`. Only the owner may relay wagers. The stake is taken
    /// from the bettor's balance and joins the pot.
    pub fn place_exacta_bet(
        &mut self,
        caller: AccountId,
        bettor: AccountId,
        first_pick: u8,
        second_pick: u8,
        amount: u128,
        now: u64,
    ) -> (result: Result<BetPlaced, Error>)
        requires
            old(self).wf(),
            old(self)@.bet_refusal(caller, bettor, first_pick, second_pick, amount) is None
                ==> old(self)@.total_pot + amount <= u128::MAX,
        ensures
            final(self).wf(),
            match old(self)@.bet_refusal(caller, bettor, first_pick, second_pick, amount) {
                Some(error) => result == Err::<BetPlaced, Error>(error) && final(self)@ == old(self)@,
                None => result == Ok::<BetPlaced, Error>(
                    BetPlaced { bettor, first_pick, second_pick, amount },
                ) && final(self)@ == old(self)@.with_bet(
                    ExactaBet { bettor, amount, first_pick, second_pick, timestamp: now },
                ),
            },
    {
        if let Some(error) = self.check_bet(caller, bettor, first_pick, second_pick, amount) {
            return Err(error);
        }
        let current_balance = self.balances.balance_of(bettor);
        self.balances.set_balance(bettor, current_balance - amount);

        let bet = ExactaBet { bettor, amount, first_pick, second_pick, timestamp: now };
        self.bets.push(bet);
        self.total_pot = self.total_pot + amount;
        proof {
            assert(self.bets@.drop_last() =~= old(self).bets@);
        }
        Ok(BetPlaced { bettor, first_pick, second_pick, amount })
    }

    /// The wagers on the current race, in the order they were placed.
    pub fn get_bets(&self) -> (bets: Vec<ExactaBet>)
        ensures
            bets@ == self@.bets,
    {
        let bets = self.bets.clone();
        assert(bets@ =~= self.bets@);
        bets
    }

    /// The sum of the stakes on the current race.
    pub fn get_total_pot(&self) -> (pot: u128)
        ensures
            pot == self@.total_pot,
    {
        self.total_pot
    }

    /// Why a start would be refused, if it would be: the caller is checked
    /// first, then the phase.
    pub fn check_start(&self, caller: AccountId) -> (refusal: Option<Error>)
        ensures
            refusal == self@.start_refusal(caller),
    {
        if caller != self.owner {
            return Some(Error::NotOwner);
        }
        if self.status != RaceStatus::Betting {
            return Some(Error::RaceNotInBettingPhase);
        }
        None
    }

    /// Starts the race with `seed`. Only the owner may do so, and only while
    /// wagers are accepted.
    pub fn start_race(&mut self, caller: AccountId, seed: u64, now: u64) -> (result: Result<
        RaceStarted,
        Error,
    >)
        requires
            old(self).wf(),
            old(self)@.start_refusal(caller) is None ==> old(self)@.race_id < u64::MAX,
        ensures
            final(self).wf(),
            match old(self)@.start_refusal(caller) {
                Some(error) => result == Err::<RaceStarted, Error>(error) && final(self)@ == old(self)@,
                None => result == Ok::<RaceStarted, Error>(
                    RaceStarted {
                        race_id: (old(self)@.race_id + 1) as u64,
                        seed,
                        total_bets: old(self)@.bets.len() as u32,
                    },
                ) && final(self)@ == old(self)@.started(seed, now),
            },
    {
        if let Some(error) = self.check_start(caller) {
            return Err(error);
        }
        self.current_seed = seed;
        self.race_id = self.race_id + 1;
        self.status = RaceStatus::Racing;
        self.race_start_time = now;

        Ok(
            RaceStarted {
                race_id: self.race_id,
                seed,
                total_bets: #[verifier::truncate]
                (self.bets.len() as u32),
            },
        )
    }

    /// Runs the race: draws the finish order from the seed, records the
    /// result and moves on to `Finished`.
    pub fn run_race_simulation(&mut self) -> (result: Result<RaceResult, Error>)
        requires
            old(self).wf(),
        ensures
            final(self).wf(),
            match result {
                Ok(outcome) => old(self)@.run_refusal() is None && outcome@ == old(self)@.outcome()
                    && final(self)@ == old(self)@.raced(),
                Err(error) => old(self)@.run_refusal() == Some(error) && final(self)@ == old(self)@,
            },
    {
        if self.status != RaceStatus::Racing {
            return Err(Error::RaceNotInProgress);
        }
        let (rankings, finish_times) = draw_finish(self.current_seed);
        let result = RaceResult {
            race_id: self.race_id,
            winning_exacta: (rankings[0], rankings[1]),
            rankings,
            finish_times,
            total_pot: self.total_pot,
            seed_used: self.current_seed,
        };
        self.latest_result = result.clone();
        self.race_results.push(result.clone());
        self.status = RaceStatus::Finished;
        proof {
            assert(result_views(self.race_results@) =~= result_views(old(self).race_results@).push(
                result@,
            ));
        }
        Ok(result)
    }

    /// Whether every balance can hold what settlement would credit to it.
    /// Settlement asks for this while the race is `Finished`.
    pub fn payouts_fit(&self) -> (fits: bool)
        requires
            self.wf(),
        ensures
            fits == self@.settlement_fits(),
    {
        let winning = self.latest_result.winning_exacta;
        let multiplier = self.reward_multipliers.get_multiplier(winning.0, winning.1);
        let mut scratch = self.balances.clone();
        let mut i: usize = 0;
        assert(self.bets@.take(0) =~= Seq::<ExactaBet>::empty());
        while i < self.bets.len()
            invariant
                i <= self.bets.len(),
                self.wf(),
                winning == self@.latest_result.winning_exacta,
                multiplier == self@.winning_multiplier(),
                forall|account: AccountId|
                    scratch@[account] == self@.balance(account) + #[trigger] winnings(
                        self.bets@.take(i as int),
                        account,
                        winning,
                        multiplier,
                    ),
            decreases self.bets.len() - i,
        {
            let bet = self.bets[i];
            proof {
                lemma_winnings_step(self.bets@, i as int, bet.bettor, winning, multiplier);
                lemma_winnings_of_prefix(self.bets@, i + 1, bet.bettor, winning, multiplier);
            }
            if bet.first_pick == winning.0 && bet.second_pick == winning.1 {
                let credited = match bet.amount.checked_mul(multiplier as u128) {
                    Some(payout_amount) => scratch.balance_of(bet.bettor).checked_add(
                        payout_amount,
                    ),
                    None => None,
                };
                match credited {
                    Some(balance) => {
                        scratch.set_balance(bet.bettor, balance);
                    },
                    None => {
                        assert(self@.balance(bet.bettor) + self@.owed(bet.bettor) > u128::MAX);
                        return false;
                    },
                }
            }
            i = i + 1;
            assert forall|account: AccountId|
                scratch@[account] == self@.balance(account) + #[trigger] winnings(
                    self.bets@.take(i as int),
                    account,
                    winning,
                    multiplier,
                ) by {
                lemma_winnings_step(self.bets@, i - 1, account, winning, multiplier);
            }
        }
        proof {
            assert(self.bets@.take(i as int) =~= self.bets@);
            assert forall|account: AccountId|
                self@.balance(account) + #[trigger] self@.owed(account) <= u128::MAX by {
                assert(scratch@[account] == self@.balance(account) + winnings(
                    self.bets@.take(i as int),
                    account,
                    winning,
                    multiplier,
                ));
            }
        }
        true
    }

    /// Settles the race: credits every wager on the winning pair with its
    /// stake times the pair's multiplier, records the payouts, and closes
    /// the race. Other wagers get nothing; their stakes stay forfeit.
    pub fn distribute_payouts(&mut self) -> (result: Result<Vec<Payout>, Error>)
        requires
            old(self).wf(),
            old(self)@.settlement_refusal() is None ==> old(self)@.settlement_fits(),
        ensures
            final(self).wf(),
            match result {
                Ok(paid) => old(self)@.settlement_refusal() is None && paid@ == old(self)@.due()
                    && final(self)@ == old(self)@.settled(),
                Err(error) => old(self)@.settlement_refusal() == Some(error) && final(self)@
                    == old(self)@,
            },
            // One payout for each wager on the winning pair.
            result matches Ok(paid) ==> paid@.len() == winning_count(
                old(self)@.bets,
                old(self)@.latest_result.winning_exacta,
            ),
            // Settlement never takes from a balance, and an account without
            // a wager on the winning pair keeps what it held.
            forall|account: AccountId|
                #[trigger] final(self)@.balance(account) >= old(self)@.balance(account),
            forall|account: AccountId|
                !has_winning_wager(
                    old(self)@.bets,
                    account,
                    old(self)@.latest_result.winning_exacta,
                ) ==> #[trigger] final(self)@.balance(account) == old(self)@.balance(account),
    {
        if self.status != RaceStatus::Finished {
            return Err(Error::RaceNotFinished);
        }
        let winning = self.latest_result.winning_exacta;
        let multiplier = self.reward_multipliers.get_multiplier(winning.0, winning.1);

        let mut payouts_list: Vec<Payout> = Vec::new();
        let mut i: usize = 0;
        proof {
            assert(self.bets@.take(0) =~= Seq::<ExactaBet>::empty());
            assert(Seq::<ExactaBet>::empty().filter(winning_bet(winning)) =~= Seq::<
                ExactaBet,
            >::empty()) by {
                reveal(Seq::filter);
            }
            assert(payouts_due(self.bets@.take(0), winning, multiplier) =~= Seq::<Payout>::empty());
            assert(self.payouts@ =~= old(self).payouts@ + payouts_list@);
        }
        while i < self.bets.len()
            invariant
                i <= self.bets.len(),
                self.wf(),
                old(self).wf(),
                old(self)@.settlement_fits(),
                winning == old(self)@.latest_result.winning_exacta,
                multiplier == old(self)@.winning_multiplier(),
                self@ == (RaceView { balances: self@.balances, payouts: self@.payouts, ..old(self)@ }),
                forall|account: AccountId|
                    self@.balance(account) == old(self)@.balance(account) + #[trigger] winnings(
                        old(self)@.bets.take(i as int),
                        account,
                        winning,
                        multiplier,
                    ),
                payouts_list@ == payouts_due(old(self)@.bets.take(i as int), winning, multiplier),
                self@.payouts == old(self)@.payouts + payouts_list@,
            decreases self.bets.len() - i,
        {
            let bet = self.bets[i];
            proof {
                lemma_winnings_step(old(self)@.bets, i as int, bet.bettor, winning, multiplier);
                lemma_winnings_of_prefix(
                    old(self)@.bets,
                    i + 1,
                    bet.bettor,
                    winning,
                    multiplier,
                );
                lemma_payouts_due_step(old(self)@.bets, i as int, winning, multiplier);
                assert(old(self)@.balance(bet.bettor) + old(self)@.owed(bet.bettor) <= u128::MAX);
            }
            if bet.first_pick == winning.0 && bet.second_pick == winning.1 {
                let payout_amount = bet.amount * multiplier as u128;

                let current_balance = self.balances.balance_of(bet.bettor);
                self.balances.set_balance(bet.bettor, current_balance + payout_amount);

                let payout = Payout {
                    bettor: bet.bettor,
                    bet_amount: bet.amount,
                    multiplier,
                    payout_amount,
                    exacta: winning,
                };
                payouts_list.push(payout);
                self.payouts.push(payout);
                proof {
                    assert(self@.payouts =~= old(self)@.payouts + payouts_list@);
                }
            }
            i = i + 1;
            assert forall|account: AccountId|
                self@.balance(account) == old(self)@.balance(account) + #[trigger] winnings(
                    old(self)@.bets.take(i as int),
                    account,
                    winning,
                    multiplier,
                ) by {
                lemma_winnings_step(old(self)@.bets, i - 1, account, winning, multiplier);
            }
        }
        self.status = RaceStatus::Closed;
        proof {
            assert(old(self)@.bets.take(i as int) =~= old(self)@.bets);
            assert(self@.balances =~= old(self)@.settled().balances);
            lemma_one_payout_for_each_winning_wager(old(self)@.bets, winning, multiplier);
            assert forall|account: AccountId| #[trigger]
                self@.balance(account) >= old(self)@.balance(account) by {
                lemma_winnings_of_prefix(old(self)@.bets, 0, account, winning, multiplier);
            }
            assert forall|account: AccountId|
                !has_winning_wager(old(self)@.bets, account, winning) implies #[trigger] self@.balance(
                account,
            ) == old(self)@.balance(account) by {
                lemma_nothing_owed_without_winning_wager(
                    old(self)@.bets,
                    account,
                    winning,
                    multiplier,
                );
            }
        }
        Ok(payouts_list)
    }

    /// The payouts of the current race.
    pub fn get_payouts(&self) -> (payouts: Vec<Payout>)
        ensures
            payouts@ == self@.payouts,
    {
        let payouts = self.payouts.clone();
        assert(payouts@ =~= self.payouts@);
        payouts
    }

    /// The probability of an exacta under the strength model, in fixed
    /// point.
    pub fn calculate_exacta_probability(&self, first: u8, second: u8) -> (probability: u64)
        ensures
            probability == exacta_probability(first, second),
    {
        calculate_exacta_probability(first, second)
    }

    /// The probability and the multiplier of every exacta that pays.
    pub fn get_exacta_probability_table(&self) -> (table: Vec<ExactaProbability>)
        requires
            self.wf(),
        ensures
            table@ == probability_table(canonical_odds()),
    {
        exacta_probability_table(&self.reward_multipliers)
    }

    /// The six horses, by id.
    pub fn get_horses(&self) -> (horses: Vec<Horse>)
        requires
            self.wf(),
        ensures
            horse_views(horses@) == horse_models(),
    {
        let mut horses: Vec<Horse> = Vec::new();
        let mut i: usize = 0;
        while i < self.horses.len()
            invariant
                i <= self.horses.len(),
                horses.len() == i,
                forall|j: int| 0 <= j < i ==> horses[j]@ == self.horses[j]@,
            decreases self.horses.len() - i,
        {
            horses.push(self.horses[i].clone());
            i = i + 1;
        }
        assert(horse_views(horses@) =~= horse_views(self.horses@));
        horses
    }

    /// The horse with the given id, if there is one.
    pub fn get_horse(&self, id: u8) -> (horse: Option<Horse>)
        requires
            self.wf(),
        ensures
            match horse {
                Some(found) => id < NUM_HORSES && found@ == horse_model(id as int),
                None => id >= NUM_HORSES,
            },
    {
        assert(horse_views(self.horses@).len() == NUM_HORSES);
        if (id as usize) < self.horses.len() {
            assert(horse_views(self.horses@)[id as int] == horse_model(id as int));
            Some(self.horses[id as usize].clone())
        } else {
            None
        }
    }

    /// The phase of the race.
    pub fn get_status(&self) -> (status: RaceStatus)
        ensures
            status == self@.status,
    {
        self.status
    }

    /// The id of the current race: the number of races started so far.
    pub fn get_race_id(&self) -> (race_id: u64)
        ensures
            race_id == self@.race_id,
    {
        self.race_id
    }

    /// The result of the latest race.
    pub fn get_latest_result(&self) -> (result: RaceResult)
        ensures
            result@ == self@.latest_result,
    {
        self.latest_result.clone()
    }

    /// The results of all races run, oldest first.
    pub fn get_race_history(&self) -> (results: Vec<RaceResult>)
        ensures
            result_views(results@) == self@.race_results,
    {
        let mut results: Vec<RaceResult> = Vec::new();
        let mut i: usize = 0;
        while i < self.race_results.len()
            invariant
                i <= self.race_results.len(),
                results.len() == i,
                forall|j: int| 0 <= j < i ==> results[j]@ == self.race_results[j]@,
            decreases self.race_results.len() - i,
        {
            results.push(self.race_results[i].clone());
            i = i + 1;
        }
        assert(result_views(results@) =~= result_views(self.race_results@));
        results
    }

    /// The first two finishers of the latest race.
    pub fn get_winners(&self) -> (winners: (u8, u8))
        ensures
            winners == self@.latest_result.winning_exacta,
    {
        self.latest_result.winning_exacta
    }

    /// The multiplier paid on `first` winning ahead of `second`. It is
    /// positive exactly for two different horses.
    pub fn get_reward_multiplier(&self, first: u8, second: u8) -> (multiplier: u64)
        requires
            self.wf(),
        ensures
            multiplier == canonical_multiplier(first, second),
            multiplier > 0 <==> first < NUM_HORSES && second < NUM_HORSES && first != second,
    {
        self.reward_multipliers.get_multiplier(first, second)
    }

    /// A horse's share of the total strength, in fixed point; zero for an
    /// id that names no horse.
    pub fn get_normalized_strength(&self, horse_id: u8) -> (share: u64)
        requires
            self.wf(),
        ensures
            share == normalized_share(horse_id as int),
    {
        assert(horse_views(self.horses@).len() == NUM_HORSES);
        if horse_id < NUM_HORSES as u8 {
            assert(horse_views(self.horses@)[horse_id as int] == horse_model(horse_id as int));
            proof {
                lemma_strength_bounds(horse_id as int);
            }
            self.horses[horse_id as usize].normalized_strength
        } else {
            0
        }
    }

    /// The owner.
    pub fn get_owner(&self) -> (owner: AccountId)
        ensures
            owner == self@.owner,
    {
        self.owner
    }

    /// Clears the wagers, the payouts, the pot and the seed, and accepts
    /// wagers again. Only the owner may do so.
    pub fn reset_for_new_race(&mut self, caller: AccountId, now: u64) -> (result: Result<
        (),
        Error,
    >)
        requires
            old(self).wf(),
        ensures
            final(self).wf(),
            caller != old(self)@.owner ==> result == Err::<(), Error>(Error::NotOwner) && final(self)@ == old(self)@,
            caller == old(self)@.owner ==> result == Ok::<(), Error>(()) && final(self)@ == old(self)@.reopened(now),
    {
        if caller != self.owner {
            return Err(Error::NotOwner);
        }
        self.bets.clear();
        self.payouts.clear();
        self.total_pot = 0;
        self.status = RaceStatus::Betting;
        self.betting_start_time = now;
        self.current_seed = 0;

        Ok(())
    }

    /// Hands the engine to a new owner. Only the owner may do so.
    pub fn set_owner(&mut self, caller: AccountId, new_owner: AccountId) -> (result: Result<
        (),
        Error,
    >)
        requires
            old(self).wf(),
        ensures
            final(self).wf(),
            caller != old(self)@.owner ==> result == Err::<(), Error>(Error::NotOwner) && final(self)@ == old(self)@,
            caller == old(self)@.owner ==> result == Ok::<(), Error>(()) && final(self)@ == (
            RaceView { owner: new_owner, ..old(self)@ }),
    {
        if caller != self.owner {
            return Err(Error::NotOwner);
        }
        self.owner = new_owner;
        Ok(())
    }

    /// Starts a race with `seed` and runs it at once. It is refused where a
    /// start is refused: for a caller who is not the owner, and outside the
    /// betting phase. A refusal changes nothing.
    pub fn simulate_complete_race(&mut self, caller: AccountId, seed: u64, now: u64) -> (result:
        Result<RaceResult, Error>)
        requires
            old(self).wf(),
            old(self)@.start_refusal(caller) is None ==> old(self)@.race_id < u64::MAX,
        ensures
            final(self).wf(),
            match old(self)@.start_refusal(caller) {
                Some(error) => result matches Err(refusal) && refusal == error && final(self)@
                    == old(self)@,
                None => result matches Ok(outcome) && outcome@ == old(self)@.started(
                    seed,
                    now,
                ).outcome() && final(self)@ == old(self)@.started(seed, now).raced(),
            },
    {
        if let Err(error) = self.start_race(caller, seed, now) {
            return Err(error);
        }
        self.run_race_simulation()
    }

    /// The engine's state as plain values.
    pub fn to_record(&self) -> (record: EngineRecord)
        ensures
            record@ == self@,
    {
        EngineRecord {
            owner: self.owner,
            race_id: self.race_id,
            status: self.status,
            bets: self.get_bets(),
            race_results: self.get_race_history(),
            latest_result: self.latest_result.clone(),
            payouts: self.get_payouts(),
            current_seed: self.current_seed,
            race_start_time: self.race_start_time,
            betting_start_time: self.betting_start_time,
            total_pot: self.total_pot,
            balances: self.balances.to_entries(),
        }
    }

    /// The engine that a record stands for. A record whose pot is not the
    /// sum of its stakes stands for none.
    pub fn from_record(record: EngineRecord) -> (race: Option<HorseRace>)
        ensures
            match race {
                Some(engine) => engine.wf() && engine@ == record@ && record@.total_pot
                    == stake_sum(record@.bets),
                None => record@.total_pot != stake_sum(record@.bets),
            },
    {
        match stake_total(&record.bets) {
            Some(sum) => {
                if sum != record.total_pot {
                    return None;
                }
            },
            None => {
                return None;
            },
        }
        Some(
            HorseRace {
                owner: record.owner,
                race_id: record.race_id,
                status: record.status,
                horses: initialize_horses(),
                bets: record.bets,
                race_results: record.race_results,
                latest_result: record.latest_result,
                payouts: record.payouts,
                current_seed: record.current_seed,
                race_start_time: record.race_start_time,
                betting_start_time: record.betting_start_time,
                total_pot: record.total_pot,
                reward_multipliers: initialize_multipliers(),
                balances: BalanceLedger::from_entries(record.balances),
            },
        )
    }
}

} // verus!
