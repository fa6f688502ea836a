//! The records that the engine keeps and hands out: errors, the lifecycle
//! status, wagers, race results, payouts, and the notices that tell the
//! outside world what happened.

use vstd::prelude::*;
use crate::account::AccountId;

verus! {

/// Why an operation was refused. A refused operation changes nothing.
#[derive(Debug, Clone, Copy, PartialEq, Eq, Structural)]
pub enum Error {
    /// A wager came in while the race was not accepting wagers.
    BettingClosed,
    /// A pick names no horse.
    InvalidHorseId,
    /// First and second pick are the same horse.
    SameHorsePicked,
    /// The stake is zero.
    ZeroBetAmount,
    /// The caller is not the owner.
    NotOwner,
    /// The race cannot start: it is not accepting wagers.
    RaceNotInBettingPhase,
    /// The race cannot be run: it has not been started.
    RaceNotInProgress,
    /// Payouts cannot be distributed: the race has not finished.
    RaceNotFinished,
    /// The balance does not cover the amount.
    InsufficientBalance,
}

/// The phase of the race.
#[derive(Debug, Clone, Copy, PartialEq, Eq, Structural)]
pub enum RaceStatus {
    /// Accepting wagers.
    Betting,
    /// Started; the outcome is not drawn yet.
    Racing,
    /// The outcome is drawn; payouts are due.
    Finished,
    /// Payouts are distributed.
    Closed,
}

impl Default for RaceStatus {
    fn default() -> (status: RaceStatus)
        ensures
            status == RaceStatus::Betting,
    {
        RaceStatus::Betting
    }
}

/// A wager on the first two finishers, in order.
#[derive(Debug, Clone, Copy, PartialEq, Eq)]
pub struct ExactaBet {
    pub bettor: AccountId,
    pub amount: u128,
    pub first_pick: u8,
    pub second_pick: u8,
    pub timestamp: u64,
}

/// The outcome of one race.
#[derive(Debug, PartialEq, Eq)]
pub struct RaceResult {
    pub race_id: u64,
    /// Horse ids in finish order.
    pub rankings: Vec<u8>,
    /// Finish time of each position.
    pub finish_times: Vec<u64>,
    /// The first two finishers.
    pub winning_exacta: (u8, u8),
    /// The pot when the race was run.
    pub total_pot: u128,
    pub seed_used: u64,
}

/// A race result as a mathematical value.
pub struct RaceResultView {
    pub race_id: u64,
    pub rankings: Seq<u8>,
    pub finish_times: Seq<u64>,
    pub winning_exacta: (u8, u8),
    pub total_pot: u128,
    pub seed_used: u64,
}

impl View for RaceResult {
    type V = RaceResultView;

    open spec fn view(&self) -> RaceResultView {
        RaceResultView {
            race_id: self.race_id,
            rankings: self.rankings@,
            finish_times: self.finish_times@,
            winning_exacta: self.winning_exacta,
            total_pot: self.total_pot,
            seed_used: self.seed_used,
        }
    }
}

impl Clone for RaceResult {
    fn clone(&self) -> (copy: RaceResult)
        ensures
            copy@ == self@,
    {
        RaceResult {
            race_id: self.race_id,
            rankings: self.rankings.clone(),
            finish_times: self.finish_times.clone(),
            winning_exacta: self.winning_exacta,
            total_pot: self.total_pot,
            seed_used: self.seed_used,
        }
    }
}

/// The views of a sequence of results.
pub open spec fn result_views(results: Seq<RaceResult>) -> Seq<RaceResultView> {
    results.map_values(|result: RaceResult| result@)
}

/// The result that stands before any race has been run.
pub open spec fn no_result() -> RaceResultView {
    RaceResultView {
        race_id: 0,
        rankings: Seq::empty(),
        finish_times: Seq::empty(),
        winning_exacta: (0, 0),
        total_pot: 0,
        seed_used: 0,
    }
}

impl Default for RaceResult {
    fn default() -> (result: RaceResult)
        ensures
            result@ == no_result(),
    {
        RaceResult {
            race_id: 0,
            rankings: Vec::new(),
            finish_times: Vec::new(),
            winning_exacta: (0, 0),
            total_pot: 0,
            seed_used: 0,
        }
    }
}

/// What a winning wager was paid.
#[derive(Debug, Clone, Copy, PartialEq, Eq)]
pub struct Payout {
    pub bettor: AccountId,
    pub bet_amount: u128,
    pub multiplier: u64,
    pub payout_amount: u128,
    pub exacta: (u8, u8),
}

/// Notice: a race has started.
#[derive(Debug, Clone, Copy, PartialEq, Eq)]
pub struct RaceStarted {
    pub race_id: u64,
    pub seed: u64,
    pub total_bets: u32,
}

/// Notice: a race has finished, with its first three finishers.
#[derive(Debug, Clone, Copy, PartialEq, Eq)]
pub struct RaceFinished {
    pub race_id: u64,
    pub first_place: u8,
    pub second_place: u8,
    pub third_place: u8,
}

/// Notice: a wager was placed.
#[derive(Debug, Clone, Copy, PartialEq, Eq)]
pub struct BetPlaced {
    pub bettor: AccountId,
    pub first_pick: u8,
    pub second_pick: u8,
    pub amount: u128,
}

/// Notice: a payout was credited.
#[derive(Debug, Clone, Copy, PartialEq, Eq)]
pub struct PayoutDistributed {
    pub bettor: AccountId,
    pub amount: u128,
    pub multiplier: u64,
}

/// Notice: an amount was deposited.
#[derive(Debug, Clone, Copy, PartialEq, Eq)]
pub struct Deposited {
    pub account: AccountId,
    pub amount: u128,
}

/// Notice: an amount was withdrawn.
#[derive(Debug, Clone, Copy, PartialEq, Eq)]
pub struct Withdrawn {
    pub account: AccountId,
    pub amount: u128,
}

impl RaceResult {
    /// The notice of this result: the race and its first three finishers.
    /// A result with fewer than three finishers gives none.
    pub fn finished_notice(&self) -> (notice: Option<RaceFinished>)
        ensures
            match notice {
                Some(finished) => self@.rankings.len() >= 3 && finished == (RaceFinished {
                    race_id: self@.race_id,
                    first_place: self@.rankings[0],
                    second_place: self@.rankings[1],
                    third_place: self@.rankings[2],
                }),
                None => self@.rankings.len() < 3,
            },
    {
        if self.rankings.len() >= 3 {
            Some(
                RaceFinished {
                    race_id: self.race_id,
                    first_place: self.rankings[0],
                    second_place: self.rankings[1],
                    third_place: self.rankings[2],
                },
            )
        } else {
            None
        }
    }
}

impl Payout {
    /// The notice of this payout.
    pub fn notice(&self) -> (notice: PayoutDistributed)
        ensures
            notice == (PayoutDistributed {
                bettor: self.bettor,
                amount: self.payout_amount,
                multiplier: self.multiplier,
            }),
    {
        PayoutDistributed {
            bettor: self.bettor,
            amount: self.payout_amount,
            multiplier: self.multiplier,
        }
    }
}

} // verus!
