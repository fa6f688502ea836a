use horse_race::{
    AccountId, BetPlaced, Deposited, Error, ExactaBet, HorseRace, Payout, PayoutDistributed,
    RaceFinished, RaceStarted, RaceStatus, Withdrawn,
};

const NOW: u64 = 1_700_000_000;

fn owner() -> AccountId {
    AccountId([1u8; 32])
}

fn alice() -> AccountId {
    AccountId([2u8; 32])
}

fn bob() -> AccountId {
    AccountId([3u8; 32])
}

fn new_race() -> HorseRace {
    HorseRace::new(owner(), NOW)
}

/// An engine in which `alice` and `bob` hold 1000 each.
fn funded_race() -> HorseRace {
    let mut race = new_race();
    race.deposit(owner(), alice(), 1000).unwrap();
    race.deposit(owner(), bob(), 1000).unwrap();
    race
}

#[test]
fn initialization_works() {
    let contract = new_race();

    assert_eq!(contract.get_horses().len(), 6);

    let horses = contract.get_horses();
    assert_eq!(horses[0].strength, 6);
    assert_eq!(horses[5].strength, 1);

    assert_eq!(contract.get_status(), RaceStatus::Betting);
}

#[test]
fn normalized_strength_works() {
    let contract = new_race();

    let ns = contract.get_normalized_strength(0);
    assert!(ns > 2850 && ns < 2860);

    let ns = contract.get_normalized_strength(5);
    assert!(ns > 470 && ns < 480);
}

#[test]
fn exacta_probability_works() {
    let contract = new_race();

    let p_01 = contract.calculate_exacta_probability(0, 1);
    let p_54 = contract.calculate_exacta_probability(5, 4);

    assert!(p_01 > p_54);
}

#[test]
fn multipliers_initialized() {
    let contract = new_race();

    assert_eq!(contract.get_reward_multiplier(0, 5), 60);
    assert_eq!(contract.get_reward_multiplier(4, 5), 1000);
    assert_eq!(contract.get_reward_multiplier(5, 4), 1500);
}

#[test]
fn probability_table_works() {
    let contract = new_race();
    let table = contract.get_exacta_probability_table();

    assert!(!table.is_empty());

    for entry in &table {
        assert!(entry.first < 6);
        assert!(entry.second < 6);
        assert!(entry.first != entry.second);
        assert!(entry.multiplier > 0);
    }
}

#[test]
fn race_simulation_deterministic() {
    let mut contract = new_race();

    let result1 = contract.simulate_complete_race(owner(), 12345, NOW).unwrap();
    contract.reset_for_new_race(owner(), NOW).unwrap();
    let result2 = contract.simulate_complete_race(owner(), 12345, NOW).unwrap();

    assert_eq!(result1.rankings, result2.rankings);
    assert_eq!(result1.winning_exacta, result2.winning_exacta);
}

#[test]
fn new_engine_is_empty_and_accepting() {
    let race = new_race();
    assert_eq!(race.get_owner(), owner());
    assert_eq!(race.get_race_id(), 0);
    assert_eq!(race.get_status(), RaceStatus::Betting);
    assert!(race.get_bets().is_empty());
    assert!(race.get_payouts().is_empty());
    assert!(race.get_race_history().is_empty());
    assert_eq!(race.get_total_pot(), 0);
    assert_eq!(race.get_balance(alice()), 0);
    assert_eq!(race.get_winners(), (0, 0));
    let latest = race.get_latest_result();
    assert_eq!(latest.race_id, 0);
    assert!(latest.rankings.is_empty());
    assert!(latest.finish_times.is_empty());
    assert_eq!(latest.total_pot, 0);
    assert_eq!(latest.seed_used, 0);
}

#[test]
fn default_builds_the_same_engine_as_new() {
    let race = HorseRace::default(owner(), NOW);
    assert_eq!(race.get_owner(), owner());
    assert_eq!(race.get_status(), RaceStatus::Betting);
    assert_eq!(race.get_horses(), new_race().get_horses());
    assert_eq!(race.get_reward_multiplier(3, 5), 500);
}

#[test]
fn horses_follow_the_strength_model() {
    let race = new_race();
    let horses = race.get_horses();
    let names: [&[u8]; 6] = [
        b"Thunder Bolt",
        b"Silver Arrow",
        b"Golden Star",
        b"Dark Knight",
        b"Wild Spirit",
        b"Lucky Charm",
    ];
    let shares = [2857u64, 2380, 1904, 1428, 952, 476];
    for i in 0..6usize {
        assert_eq!(horses[i].id, i as u8);
        assert_eq!(horses[i].name, names[i].to_vec());
        assert_eq!(horses[i].strength, 6 - i as u64);
        assert_eq!(horses[i].normalized_strength, shares[i]);
        assert_eq!(horses[i].base_speed, 14 + 6 - i as u64);
        assert_eq!(race.get_normalized_strength(i as u8), shares[i]);
        assert_eq!(race.get_horse(i as u8), Some(horses[i].clone()));
    }
    assert_eq!(race.get_horse(6), None);
    assert_eq!(race.get_horse(255), None);
    assert_eq!(race.get_normalized_strength(6), 0);
}

#[test]
fn normalized_shares_do_not_sum_to_the_precision() {
    let race = new_race();
    let total: u64 = (0..6u8).map(|id| race.get_normalized_strength(id)).sum();
    assert_eq!(total, 9997);
}

#[test]
fn every_multiplier_matches_the_table() {
    let race = new_race();
    let table: [[u64; 6]; 6] = [
        [0, 2, 3, 10, 30, 60],
        [3, 0, 5, 20, 125, 175],
        [4, 6, 0, 8, 80, 100],
        [8, 15, 12, 0, 250, 500],
        [40, 150, 100, 300, 0, 1000],
        [80, 250, 200, 600, 1500, 0],
    ];
    for first in 0..6u8 {
        for second in 0..6u8 {
            assert_eq!(
                race.get_reward_multiplier(first, second),
                table[first as usize][second as usize]
            );
        }
    }
}

#[test]
fn lookups_outside_the_table_pay_nothing() {
    let race = new_race();
    for first in 0..=255u8 {
        for second in 0..=255u8 {
            let multiplier = race.get_reward_multiplier(first, second);
            if multiplier > 0 {
                assert!(first < 6 && second < 6 && first != second);
            } else {
                assert!(first >= 6 || second >= 6 || first == second);
            }
        }
    }
    assert_eq!(race.get_reward_multiplier(0, 8), 0);
    assert_eq!(race.get_reward_multiplier(6, 0), 0);
}

#[test]
fn probabilities_have_their_exact_values() {
    let race = new_race();
    assert_eq!(race.calculate_exacta_probability(0, 1), 952);
    assert_eq!(race.calculate_exacta_probability(5, 4), 47);
    assert_eq!(race.calculate_exacta_probability(0, 5), 190);
    assert_eq!(race.calculate_exacta_probability(2, 3), 335);
    assert_eq!(race.calculate_exacta_probability(3, 3), 0);
    assert_eq!(race.calculate_exacta_probability(6, 0), 0);
    assert_eq!(race.calculate_exacta_probability(0, 6), 0);
}

#[test]
fn probability_does_not_fall_with_a_stronger_first_horse() {
    let race = new_race();
    for second in 0..6u8 {
        for stronger in 0..6u8 {
            for weaker in stronger..6u8 {
                if stronger != second && weaker != second {
                    assert!(
                        race.calculate_exacta_probability(stronger, second)
                            >= race.calculate_exacta_probability(weaker, second)
                    );
                }
            }
        }
    }
}

#[test]
fn probability_table_lists_the_thirty_paying_pairs_in_order() {
    let race = new_race();
    let table = race.get_exacta_probability_table();
    assert_eq!(table.len(), 30);
    let mut line = 0;
    for first in 0..6u8 {
        for second in 0..6u8 {
            if first != second {
                assert_eq!(table[line].first, first);
                assert_eq!(table[line].second, second);
                assert_eq!(
                    table[line].probability,
                    race.calculate_exacta_probability(first, second)
                );
                assert_eq!(table[line].multiplier, race.get_reward_multiplier(first, second));
                line += 1;
            }
        }
    }
    assert_eq!(table[0].probability, 952);
    assert_eq!(table[0].multiplier, 2);
    assert_eq!(table[29].probability, 47);
    assert_eq!(table[29].multiplier, 1500);
}

#[test]
fn deposit_credits_and_needs_the_owner() {
    let mut race = new_race();
    assert_eq!(
        race.deposit(owner(), alice(), 250),
        Ok(Deposited { account: alice(), amount: 250 })
    );
    assert_eq!(race.deposit(owner(), alice(), 50), Ok(Deposited { account: alice(), amount: 50 }));
    assert_eq!(race.get_balance(alice()), 300);
    assert_eq!(race.get_balance(bob()), 0);

    assert_eq!(race.deposit(alice(), alice(), 10), Err(Error::NotOwner));
    assert_eq!(race.get_balance(alice()), 300);
}

#[test]
fn withdraw_debits_the_caller_and_never_overdraws() {
    let mut race = funded_race();
    assert_eq!(race.withdraw(alice(), 400), Ok(Withdrawn { account: alice(), amount: 400 }));
    assert_eq!(race.get_balance(alice()), 600);
    assert_eq!(race.get_balance(bob()), 1000);

    assert_eq!(race.withdraw(alice(), 601), Err(Error::InsufficientBalance));
    assert_eq!(race.get_balance(alice()), 600);

    assert_eq!(race.withdraw(alice(), 600), Ok(Withdrawn { account: alice(), amount: 600 }));
    assert_eq!(race.get_balance(alice()), 0);
    assert_eq!(race.withdraw(alice(), 1), Err(Error::InsufficientBalance));
    assert_eq!(race.withdraw(AccountId([9u8; 32]), 1), Err(Error::InsufficientBalance));
    assert_eq!(race.withdraw(alice(), 0), Ok(Withdrawn { account: alice(), amount: 0 }));
}

#[test]
fn wager_moves_the_stake_into_the_pot() {
    let mut race = funded_race();
    assert_eq!(
        race.place_exacta_bet(owner(), alice(), 0, 5, 100, NOW + 1),
        Ok(BetPlaced { bettor: alice(), first_pick: 0, second_pick: 5, amount: 100 })
    );
    assert_eq!(
        race.place_exacta_bet(owner(), bob(), 2, 1, 30, NOW + 2),
        Ok(BetPlaced { bettor: bob(), first_pick: 2, second_pick: 1, amount: 30 })
    );
    assert_eq!(race.get_balance(alice()), 900);
    assert_eq!(race.get_balance(bob()), 970);
    assert_eq!(race.get_total_pot(), 130);
    assert_eq!(
        race.get_bets(),
        vec![
            ExactaBet {
                bettor: alice(),
                amount: 100,
                first_pick: 0,
                second_pick: 5,
                timestamp: NOW + 1
            },
            ExactaBet {
                bettor: bob(),
                amount: 30,
                first_pick: 2,
                second_pick: 1,
                timestamp: NOW + 2
            },
        ]
    );
}

#[test]
fn wager_checks_come_in_order() {
    let mut race = funded_race();
    race.start_race(owner(), 1, NOW).unwrap();

    // Everything is wrong: the caller goes first.
    assert_eq!(race.place_exacta_bet(alice(), alice(), 9, 9, 0, NOW), Err(Error::NotOwner));
    // Then the phase.
    assert_eq!(race.place_exacta_bet(owner(), alice(), 9, 9, 0, NOW), Err(Error::BettingClosed));

    let mut race = funded_race();
    // Then the range of the picks, before their difference.
    assert_eq!(race.place_exacta_bet(owner(), alice(), 9, 9, 0, NOW), Err(Error::InvalidHorseId));
    assert_eq!(race.place_exacta_bet(owner(), alice(), 6, 0, 10, NOW), Err(Error::InvalidHorseId));
    assert_eq!(race.place_exacta_bet(owner(), alice(), 0, 6, 10, NOW), Err(Error::InvalidHorseId));
    // Then the difference, before the stake.
    assert_eq!(race.place_exacta_bet(owner(), alice(), 2, 2, 0, NOW), Err(Error::SameHorsePicked));
    // Then the stake, before the balance.
    assert_eq!(
        race.place_exacta_bet(owner(), AccountId([9u8; 32]), 2, 3, 0, NOW),
        Err(Error::ZeroBetAmount)
    );
    // Then the balance.
    assert_eq!(
        race.place_exacta_bet(owner(), alice(), 2, 3, 1001, NOW),
        Err(Error::InsufficientBalance)
    );

    assert!(race.get_bets().is_empty());
    assert_eq!(race.get_total_pot(), 0);
    assert_eq!(race.get_balance(alice()), 1000);
}

#[test]
fn same_pick_is_refused_whatever_the_rest() {
    for (amount, bettor) in [(0u128, alice()), (10, alice()), (5000, alice()), (10, bob())] {
        let mut race = funded_race();
        for pick in 0..6u8 {
            assert_eq!(
                race.place_exacta_bet(owner(), bettor, pick, pick, amount, NOW),
                Err(Error::SameHorsePicked)
            );
        }
        assert!(race.get_bets().is_empty());
        assert_eq!(race.get_balance(bettor), 1000);
    }
}

#[test]
fn start_race_records_the_seed_and_counts_races() {
    let mut race = funded_race();
    race.place_exacta_bet(owner(), alice(), 0, 1, 10, NOW).unwrap();
    race.place_exacta_bet(owner(), bob(), 1, 0, 10, NOW).unwrap();

    assert_eq!(race.start_race(alice(), 77, NOW), Err(Error::NotOwner));
    assert_eq!(race.get_status(), RaceStatus::Betting);
    assert_eq!(race.get_race_id(), 0);

    assert_eq!(
        race.start_race(owner(), 77, NOW),
        Ok(RaceStarted { race_id: 1, seed: 77, total_bets: 2 })
    );
    assert_eq!(race.get_status(), RaceStatus::Racing);
    assert_eq!(race.get_race_id(), 1);

    assert_eq!(race.start_race(owner(), 78, NOW), Err(Error::RaceNotInBettingPhase));
    assert_eq!(race.get_race_id(), 1);
    let result = race.run_race_simulation().unwrap();
    assert_eq!(result.seed_used, 77);
}

#[test]
fn run_gives_the_result_of_the_seed() {
    let mut race = funded_race();
    race.place_exacta_bet(owner(), alice(), 0, 1, 10, NOW).unwrap();
    assert_eq!(race.run_race_simulation(), Err(Error::RaceNotInProgress));

    race.start_race(owner(), 12345, NOW).unwrap();
    let result = race.run_race_simulation().unwrap();
    assert_eq!(result.race_id, 1);
    assert_eq!(result.rankings, vec![3, 0, 1, 2, 5, 4]);
    assert_eq!(result.finish_times, vec![50, 55, 58, 59, 60, 62]);
    assert_eq!(result.winning_exacta, (3, 0));
    assert_eq!(result.total_pot, 10);
    assert_eq!(result.seed_used, 12345);

    assert_eq!(race.get_status(), RaceStatus::Finished);
    assert_eq!(race.get_latest_result(), result);
    assert_eq!(race.get_race_history(), vec![result.clone()]);
    assert_eq!(race.get_winners(), (3, 0));

    assert_eq!(race.run_race_simulation(), Err(Error::RaceNotInProgress));
    assert_eq!(race.get_race_history().len(), 1);
}

#[test]
fn same_seed_gives_the_same_race_in_independent_engines() {
    for seed in [0u64, 1, 7, 42, 99, 2024, 12345, u64::MAX] {
        let mut one = new_race();
        let mut other = funded_race();
        other.place_exacta_bet(owner(), alice(), 0, 1, 10, NOW).unwrap();

        one.start_race(owner(), seed, NOW).unwrap();
        other.start_race(owner(), seed, NOW + 500).unwrap();
        let a = one.run_race_simulation().unwrap();
        let b = other.run_race_simulation().unwrap();

        assert_eq!(a.rankings, b.rankings);
        assert_eq!(a.finish_times, b.finish_times);
        assert_eq!(a.winning_exacta, b.winning_exacta);
    }
}

#[test]
fn seed_12345_repeats_after_a_full_cycle() {
    let mut race = new_race();
    race.start_race(owner(), 12345, NOW).unwrap();
    let first = race.run_race_simulation().unwrap();
    race.distribute_payouts().unwrap();
    race.reset_for_new_race(owner(), NOW).unwrap();
    assert_eq!(race.get_status(), RaceStatus::Betting);

    race.start_race(owner(), 12345, NOW).unwrap();
    let second = race.run_race_simulation().unwrap();

    assert_eq!(first.rankings, second.rankings);
    assert_eq!(first.winning_exacta, second.winning_exacta);
    assert_eq!(first.finish_times, second.finish_times);
    assert_eq!(first.race_id, 1);
    assert_eq!(second.race_id, 2);
    assert_eq!(race.get_race_history(), vec![first, second]);
}

#[test]
fn winning_wager_is_paid_stake_times_multiplier() {
    // Seed 36 finishes with horse 0 ahead of horse 5, which pays 60.
    let mut race = funded_race();
    race.place_exacta_bet(owner(), alice(), 0, 5, 100, NOW).unwrap();
    race.start_race(owner(), 36, NOW).unwrap();
    let result = race.run_race_simulation().unwrap();
    assert_eq!(result.winning_exacta, (0, 5));
    assert_eq!(race.get_reward_multiplier(0, 5), 60);

    assert!(race.payouts_fit());
    let payouts = race.distribute_payouts().unwrap();
    assert_eq!(
        payouts,
        vec![Payout {
            bettor: alice(),
            bet_amount: 100,
            multiplier: 60,
            payout_amount: 6000,
            exacta: (0, 5),
        }]
    );
    assert_eq!(race.get_payouts(), payouts);
    assert_eq!(race.get_balance(alice()), 900 + 6000);
    assert_eq!(race.get_balance(bob()), 1000);
    assert_eq!(race.get_status(), RaceStatus::Closed);
}

#[test]
fn wager_on_another_pair_is_paid_nothing() {
    // Seed 12345 finishes with horse 3 ahead of horse 0.
    let mut race = funded_race();
    race.place_exacta_bet(owner(), alice(), 0, 5, 100, NOW).unwrap();
    race.start_race(owner(), 12345, NOW).unwrap();
    let result = race.run_race_simulation().unwrap();
    assert_eq!(result.winning_exacta, (3, 0));

    let payouts = race.distribute_payouts().unwrap();
    assert!(payouts.is_empty());
    assert!(race.get_payouts().is_empty());
    assert_eq!(race.get_balance(alice()), 900);
    assert_eq!(race.get_total_pot(), 100);
    assert_eq!(race.get_status(), RaceStatus::Closed);
}

#[test]
fn wager_on_the_reversed_pair_is_paid_nothing() {
    let mut race = funded_race();
    race.place_exacta_bet(owner(), alice(), 5, 0, 100, NOW).unwrap();
    race.start_race(owner(), 36, NOW).unwrap();
    assert_eq!(race.run_race_simulation().unwrap().winning_exacta, (0, 5));
    assert!(race.distribute_payouts().unwrap().is_empty());
    assert_eq!(race.get_balance(alice()), 900);
}

#[test]
fn settlement_pays_each_winning_wager_in_placement_order() {
    let mut race = funded_race();
    race.place_exacta_bet(owner(), alice(), 0, 5, 100, NOW).unwrap();
    race.place_exacta_bet(owner(), bob(), 0, 1, 50, NOW).unwrap();
    race.place_exacta_bet(owner(), bob(), 0, 5, 7, NOW).unwrap();
    race.place_exacta_bet(owner(), alice(), 0, 5, 1, NOW).unwrap();
    race.start_race(owner(), 36, NOW).unwrap();
    race.run_race_simulation().unwrap();

    let payouts = race.distribute_payouts().unwrap();
    let expect = |bettor: AccountId, stake: u128| Payout {
        bettor,
        bet_amount: stake,
        multiplier: 60,
        payout_amount: stake * 60,
        exacta: (0, 5),
    };
    assert_eq!(payouts, vec![expect(alice(), 100), expect(bob(), 7), expect(alice(), 1)]);
    assert_eq!(race.get_balance(alice()), 1000 - 101 + 6060);
    assert_eq!(race.get_balance(bob()), 1000 - 57 + 420);
}

#[test]
fn settlement_runs_once() {
    let mut race = funded_race();
    race.place_exacta_bet(owner(), alice(), 0, 5, 100, NOW).unwrap();
    assert_eq!(race.distribute_payouts(), Err(Error::RaceNotFinished));
    race.start_race(owner(), 36, NOW).unwrap();
    assert_eq!(race.distribute_payouts(), Err(Error::RaceNotFinished));
    race.run_race_simulation().unwrap();

    assert_eq!(race.distribute_payouts().unwrap().len(), 1);
    assert_eq!(race.get_balance(alice()), 6900);

    assert_eq!(race.distribute_payouts(), Err(Error::RaceNotFinished));
    assert_eq!(race.get_balance(alice()), 6900);
    assert_eq!(race.get_payouts().len(), 1);
    assert_eq!(race.get_status(), RaceStatus::Closed);
}

#[test]
fn payouts_fit_tells_when_a_balance_cannot_hold_its_winnings() {
    let mut race = new_race();
    race.deposit(owner(), alice(), u128::MAX).unwrap();
    race.place_exacta_bet(owner(), alice(), 0, 5, 1, NOW).unwrap();
    race.start_race(owner(), 36, NOW).unwrap();
    race.run_race_simulation().unwrap();
    // The balance is one short of the maximum and 60 are owed.
    assert!(!race.payouts_fit());

    let mut race = new_race();
    race.deposit(owner(), alice(), u128::MAX / 50).unwrap();
    race.place_exacta_bet(owner(), alice(), 0, 5, u128::MAX / 50, NOW).unwrap();
    race.start_race(owner(), 36, NOW).unwrap();
    race.run_race_simulation().unwrap();
    // The stake times 60 is itself too large.
    assert!(!race.payouts_fit());

    let mut race = new_race();
    race.deposit(owner(), alice(), u128::MAX).unwrap();
    race.place_exacta_bet(owner(), alice(), 0, 5, 60, NOW).unwrap();
    race.place_exacta_bet(owner(), alice(), 1, 0, 1, NOW).unwrap();
    race.start_race(owner(), 36, NOW).unwrap();
    race.run_race_simulation().unwrap();
    assert!(!race.payouts_fit());

    let mut race = new_race();
    race.deposit(owner(), alice(), u128::MAX).unwrap();
    race.place_exacta_bet(owner(), alice(), 1, 0, 61, NOW).unwrap();
    race.place_exacta_bet(owner(), alice(), 0, 5, 1, NOW).unwrap();
    race.start_race(owner(), 36, NOW).unwrap();
    race.run_race_simulation().unwrap();
    // 62 were staked and 60 are owed.
    assert!(race.payouts_fit());
    race.distribute_payouts().unwrap();
    assert_eq!(race.get_balance(alice()), u128::MAX - 2);
}

#[test]
fn reset_clears_the_race_and_keeps_the_rest() {
    let mut race = funded_race();
    race.place_exacta_bet(owner(), alice(), 0, 5, 100, NOW).unwrap();
    race.start_race(owner(), 36, NOW).unwrap();
    let result = race.run_race_simulation().unwrap();
    race.distribute_payouts().unwrap();

    assert_eq!(race.reset_for_new_race(alice(), NOW), Err(Error::NotOwner));
    assert_eq!(race.get_status(), RaceStatus::Closed);
    assert_eq!(race.get_bets().len(), 1);

    assert_eq!(race.reset_for_new_race(owner(), NOW + 900), Ok(()));
    assert_eq!(race.get_status(), RaceStatus::Betting);
    assert!(race.get_bets().is_empty());
    assert!(race.get_payouts().is_empty());
    assert_eq!(race.get_total_pot(), 0);
    assert_eq!(race.get_race_id(), 1);
    assert_eq!(race.get_balance(alice()), 6900);
    assert_eq!(race.get_latest_result(), result);
    assert_eq!(race.get_race_history().len(), 1);

    // The seed is cleared too: the next race runs on the seed it is given.
    race.start_race(owner(), 12345, NOW).unwrap();
    assert_eq!(race.run_race_simulation().unwrap().winning_exacta, (3, 0));
}

#[test]
fn set_owner_hands_the_engine_over() {
    let mut race = new_race();
    assert_eq!(race.set_owner(alice(), alice()), Err(Error::NotOwner));
    assert_eq!(race.get_owner(), owner());

    assert_eq!(race.set_owner(owner(), alice()), Ok(()));
    assert_eq!(race.get_owner(), alice());
    assert_eq!(race.deposit(owner(), bob(), 1), Err(Error::NotOwner));
    assert_eq!(race.deposit(alice(), bob(), 1), Ok(Deposited { account: bob(), amount: 1 }));
}

#[test]
fn simulate_complete_race_starts_and_runs_in_one_call() {
    let mut race = funded_race();
    race.place_exacta_bet(owner(), alice(), 0, 5, 100, NOW).unwrap();

    let result = race.simulate_complete_race(owner(), 36, NOW + 5).unwrap();
    assert_eq!(result.race_id, 1);
    assert_eq!(result.rankings.len(), 6);
    assert_eq!(result.winning_exacta, (0, 5));
    assert_eq!(result.total_pot, 100);
    assert_eq!(result.seed_used, 36);
    assert_eq!(race.get_status(), RaceStatus::Finished);
    assert_eq!(race.get_race_id(), 1);
    assert_eq!(race.get_latest_result(), result);
    assert_eq!(race.get_race_history(), vec![result.clone()]);
    assert_eq!(race.to_record().race_start_time, NOW + 5);

    // It gives what a start and a run give.
    let mut stepwise = funded_race();
    stepwise.place_exacta_bet(owner(), alice(), 0, 5, 100, NOW).unwrap();
    stepwise.start_race(owner(), 36, NOW + 5).unwrap();
    assert_eq!(stepwise.run_race_simulation().unwrap(), result);
    assert_eq!(stepwise.to_record(), race.to_record());
}

#[test]
fn simulate_complete_race_is_refused_where_a_start_is() {
    let mut race = funded_race();
    race.place_exacta_bet(owner(), alice(), 0, 5, 100, NOW).unwrap();

    // Not the owner: refused in every phase, before the phase is looked at.
    let before = race.to_record();
    assert_eq!(race.simulate_complete_race(alice(), 36, NOW), Err(Error::NotOwner));
    assert_eq!(race.to_record(), before);

    // Started: refused.
    race.start_race(owner(), 36, NOW).unwrap();
    let before = race.to_record();
    assert_eq!(race.simulate_complete_race(owner(), 16, NOW), Err(Error::RaceNotInBettingPhase));
    assert_eq!(race.simulate_complete_race(alice(), 16, NOW), Err(Error::NotOwner));
    assert_eq!(race.to_record(), before);

    // Finished: refused, and the stored outcome stays.
    let result = race.run_race_simulation().unwrap();
    let before = race.to_record();
    assert_eq!(race.simulate_complete_race(owner(), 16, NOW), Err(Error::RaceNotInBettingPhase));
    assert_eq!(race.to_record(), before);
    assert_eq!(race.get_latest_result(), result);
    assert_eq!(race.get_race_id(), 1);

    // Closed: refused.
    race.distribute_payouts().unwrap();
    let before = race.to_record();
    assert_eq!(race.simulate_complete_race(owner(), 16, NOW), Err(Error::RaceNotInBettingPhase));
    assert_eq!(race.to_record(), before);

    // After the reset it runs again.
    race.reset_for_new_race(owner(), NOW).unwrap();
    let next = race.simulate_complete_race(owner(), 16, NOW).unwrap();
    assert_eq!(next.race_id, 2);
    assert_eq!(next.winning_exacta, (0, 1));
    assert_eq!(race.get_race_history(), vec![result, next]);
}

#[test]
fn no_wager_is_paid_twice() {
    // Seed 0 finishes with horse 4 ahead of horse 2, which pays 100.
    let mut race = funded_race();
    race.place_exacta_bet(owner(), alice(), 4, 2, 100, NOW).unwrap();
    race.start_race(owner(), 0, NOW).unwrap();
    assert_eq!(race.run_race_simulation().unwrap().winning_exacta, (4, 2));
    assert_eq!(race.distribute_payouts().unwrap().len(), 1);
    assert_eq!(race.get_balance(alice()), 10_900);

    // No way leads back to `Finished` with the same wagers.
    assert_eq!(race.simulate_complete_race(owner(), 0, NOW), Err(Error::RaceNotInBettingPhase));
    assert_eq!(race.start_race(owner(), 0, NOW), Err(Error::RaceNotInBettingPhase));
    assert_eq!(race.run_race_simulation(), Err(Error::RaceNotInProgress));
    assert_eq!(race.distribute_payouts(), Err(Error::RaceNotFinished));
    assert_eq!(race.get_balance(alice()), 10_900);
    assert_eq!(race.get_payouts().len(), 1);

    // The reset clears the wagers, so the next race pays none of them.
    race.reset_for_new_race(owner(), NOW).unwrap();
    race.simulate_complete_race(owner(), 0, NOW).unwrap();
    assert!(race.distribute_payouts().unwrap().is_empty());
    assert_eq!(race.get_balance(alice()), 10_900);
}

#[test]
fn settlement_leaves_the_other_accounts_alone() {
    let carol = AccountId([4u8; 32]);
    let mut race = funded_race();
    race.deposit(owner(), carol, 77).unwrap();
    race.place_exacta_bet(owner(), alice(), 0, 5, 10, NOW).unwrap();
    race.place_exacta_bet(owner(), bob(), 5, 0, 20, NOW).unwrap();
    race.place_exacta_bet(owner(), bob(), 0, 4, 30, NOW).unwrap();
    race.place_exacta_bet(owner(), alice(), 0, 5, 40, NOW).unwrap();
    race.start_race(owner(), 36, NOW).unwrap();
    race.run_race_simulation().unwrap();

    let held = [race.get_balance(alice()), race.get_balance(bob()), race.get_balance(carol)];
    let payouts = race.distribute_payouts().unwrap();
    // Two wagers were on the winning pair.
    assert_eq!(payouts.len(), 2);
    assert_eq!(race.get_balance(alice()), held[0] + 50 * 60);
    // Neither a losing bettor nor a bystander gains or loses.
    assert_eq!(race.get_balance(bob()), held[1]);
    assert_eq!(race.get_balance(carol), held[2]);
}

#[test]
fn notices_carry_the_fields_of_their_records() {
    let mut race = funded_race();
    race.place_exacta_bet(owner(), alice(), 0, 5, 100, NOW).unwrap();
    race.start_race(owner(), 36, NOW).unwrap();
    let result = race.run_race_simulation().unwrap();
    assert_eq!(
        result.finished_notice(),
        Some(RaceFinished {
            race_id: 1,
            first_place: result.rankings[0],
            second_place: result.rankings[1],
            third_place: result.rankings[2],
        })
    );
    assert_eq!(race.get_latest_result().finished_notice().unwrap().first_place, 0);
    assert_eq!(new_race().get_latest_result().finished_notice(), None);

    let payouts = race.distribute_payouts().unwrap();
    assert_eq!(
        payouts[0].notice(),
        PayoutDistributed { bettor: alice(), amount: 6000, multiplier: 60 }
    );
}

#[test]
fn pot_is_the_sum_of_the_stakes() {
    let mut race = funded_race();
    let stakes = [5u128, 17, 1, 300, 44];
    for (i, stake) in stakes.iter().enumerate() {
        let bettor = if i % 2 == 0 { alice() } else { bob() };
        race.place_exacta_bet(owner(), bettor, 1, 2, *stake, NOW).unwrap();
        let placed: u128 = race.get_bets().iter().map(|bet| bet.amount).sum();
        assert_eq!(race.get_total_pot(), placed);
    }
    assert_eq!(race.get_total_pot(), 367);
}

#[test]
fn record_round_trip_keeps_the_engine() {
    let mut race = funded_race();
    race.place_exacta_bet(owner(), alice(), 0, 5, 100, NOW).unwrap();
    race.place_exacta_bet(owner(), bob(), 3, 0, 40, NOW).unwrap();
    race.start_race(owner(), 36, NOW + 10).unwrap();
    race.run_race_simulation().unwrap();

    let record = race.to_record();
    assert_eq!(record.owner, owner());
    assert_eq!(record.race_id, 1);
    assert_eq!(record.status, RaceStatus::Finished);
    assert_eq!(record.current_seed, 36);
    assert_eq!(record.race_start_time, NOW + 10);
    assert_eq!(record.betting_start_time, NOW);
    assert_eq!(record.total_pot, 140);
    assert_eq!(record.bets, race.get_bets());

    let mut restored = horse_race::HorseRace::from_record(record.clone()).unwrap();
    assert_eq!(restored.to_record(), record);
    assert_eq!(restored.get_balance(alice()), 900);
    assert_eq!(restored.get_balance(bob()), 960);
    assert_eq!(restored.get_reward_multiplier(0, 5), 60);
    assert_eq!(restored.get_horses(), race.get_horses());

    // The restored engine goes on where the first stood.
    assert_eq!(restored.distribute_payouts(), race.distribute_payouts());
    assert_eq!(restored.get_balance(alice()), 6900);
    assert_eq!(restored.to_record(), race.to_record());
}

#[test]
fn record_with_a_wrong_pot_stands_for_no_engine() {
    let mut race = funded_race();
    race.place_exacta_bet(owner(), alice(), 0, 5, 100, NOW).unwrap();
    let good = race.to_record();

    let mut short = good.clone();
    short.total_pot = 99;
    assert!(horse_race::HorseRace::from_record(short).is_none());

    let mut empty = good.clone();
    empty.bets.clear();
    assert!(horse_race::HorseRace::from_record(empty).is_none());

    let mut huge = good.clone();
    let mut bet = huge.bets[0];
    bet.amount = u128::MAX;
    huge.bets.push(bet);
    assert!(horse_race::HorseRace::from_record(huge).is_none());

    assert!(horse_race::HorseRace::from_record(good).is_some());
}

#[test]
fn check_functions_tell_what_the_operations_would_answer() {
    let mut race = funded_race();
    assert_eq!(race.check_bet(owner(), alice(), 0, 5, 100), None);
    assert_eq!(race.check_bet(bob(), alice(), 0, 5, 100), Some(Error::NotOwner));
    assert_eq!(race.check_bet(owner(), alice(), 0, 7, 100), Some(Error::InvalidHorseId));
    assert_eq!(race.check_bet(owner(), alice(), 4, 4, 100), Some(Error::SameHorsePicked));
    assert_eq!(race.check_bet(owner(), alice(), 0, 5, 0), Some(Error::ZeroBetAmount));
    assert_eq!(race.check_bet(owner(), alice(), 0, 5, 1001), Some(Error::InsufficientBalance));
    assert_eq!(race.check_start(owner()), None);
    assert_eq!(race.check_start(alice()), Some(Error::NotOwner));
    // A check changes nothing.
    assert!(race.get_bets().is_empty());
    assert_eq!(race.get_balance(alice()), 1000);

    race.start_race(owner(), 1, NOW).unwrap();
    assert_eq!(race.check_bet(owner(), alice(), 0, 5, 100), Some(Error::BettingClosed));
    assert_eq!(race.check_start(owner()), Some(Error::RaceNotInBettingPhase));
    assert_eq!(race.check_start(alice()), Some(Error::NotOwner));
}
