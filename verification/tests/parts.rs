use horse_race::engine::stake_total;
use horse_race::ledger::LedgerEntry;
use horse_race::odds::initialize_multipliers;
use horse_race::outcome::{draw_finish, next_random, remaining_strength, select_horse};
use horse_race::probability::{calculate_exacta_probability, exacta_probability_table};
use horse_race::strength::{
    initialize_horses, strength, HORSE_STRENGTHS, NUM_HORSES, PRECISION, TOTAL_STRENGTH,
};
use horse_race::{
    AccountId, BalanceLedger, ExactaBet, ExactaProbability, Horse, OddsTable, RaceResult,
    RaceStatus,
};

#[test]
fn accounts_are_compared_byte_for_byte() {
    let a = AccountId([7u8; 32]);
    let mut bytes = [7u8; 32];
    assert!(a == AccountId(bytes));
    bytes[31] = 8;
    assert!(a != AccountId(bytes));
    bytes[31] = 7;
    bytes[0] = 0;
    assert!(a != AccountId(bytes));
}

#[test]
fn strength_constants_agree() {
    assert_eq!(PRECISION, 10000);
    assert_eq!(NUM_HORSES, 6);
    assert_eq!(HORSE_STRENGTHS, [6, 5, 4, 3, 2, 1]);
    assert_eq!(HORSE_STRENGTHS.iter().sum::<u64>(), TOTAL_STRENGTH);
    for id in 0..6u8 {
        assert_eq!(strength(id), 6 - id as u64);
    }
    assert_eq!(strength(6), 0);
    assert_eq!(strength(200), 0);
}

#[test]
fn initialize_horses_builds_six_horses() {
    let horses = initialize_horses();
    assert_eq!(horses.len(), 6);
    assert_eq!(
        horses[0],
        Horse {
            id: 0,
            name: b"Thunder Bolt".to_vec(),
            strength: 6,
            normalized_strength: 2857,
            base_speed: 20,
        }
    );
    assert_eq!(
        horses[5],
        Horse {
            id: 5,
            name: b"Lucky Charm".to_vec(),
            strength: 1,
            normalized_strength: 476,
            base_speed: 15,
        }
    );
}

#[test]
fn defaults_are_empty_records() {
    assert_eq!(RaceStatus::default(), RaceStatus::Betting);
    assert_eq!(
        Horse::default(),
        Horse { id: 0, name: Vec::new(), strength: 0, normalized_strength: 0, base_speed: 0 }
    );
    assert_eq!(
        ExactaProbability::default(),
        ExactaProbability { first: 0, second: 0, probability: 0, multiplier: 0 }
    );
    let result = RaceResult::default();
    assert_eq!(result.race_id, 0);
    assert!(result.rankings.is_empty());
    assert_eq!(result.winning_exacta, (0, 0));
}

#[test]
fn generator_steps_have_their_exact_values() {
    assert_eq!(next_random(0), 12345);
    assert_eq!(next_random(1), 1103527590);
    assert_eq!(next_random(12345), 1406932606);
    assert_eq!(next_random(1406932606), 654583775);
    // The product wraps around 64 bits before the reduction.
    assert_eq!(next_random(u64::MAX), 1043980748);
    for seed in [0u64, 5, 1 << 40, u64::MAX - 3] {
        assert!(next_random(seed) < 1 << 31);
    }
}

#[test]
fn remaining_strength_adds_up_the_pool() {
    assert_eq!(remaining_strength(&[true; 6]), 21);
    assert_eq!(remaining_strength(&[false; 6]), 0);
    assert_eq!(remaining_strength(&[false, true, false, true, false, true]), 9);
    assert_eq!(remaining_strength(&[true, false, false, false, false, false]), 6);
}

#[test]
fn select_horse_takes_the_first_whose_cumulative_strength_exceeds_the_draw() {
    let all = [true; 6];
    let expected = [0u8, 0, 0, 0, 0, 0, 1, 1, 1, 1, 1, 2, 2, 2, 2, 3, 3, 3, 4, 4, 5];
    for (draw, id) in expected.iter().enumerate() {
        assert_eq!(select_horse(&all, draw as u64), *id);
    }
    // Without horses 0 and 2 the pool is 5, 3, 2, 1.
    let pool = [false, true, false, true, true, true];
    let expected = [1u8, 1, 1, 1, 1, 3, 3, 3, 4, 4, 5];
    for (draw, id) in expected.iter().enumerate() {
        assert_eq!(select_horse(&pool, draw as u64), *id);
    }
    // A draw that the pool's strength does not cover picks nothing; the
    // answer is then horse 0.
    assert_eq!(select_horse(&pool, 11), 0);
    assert_eq!(select_horse(&[false; 6], 0), 0);
}

#[test]
fn draw_places_every_horse_once() {
    for seed in (0..300u64).chain([u64::MAX, u64::MAX / 3, 1 << 31, 1 << 63]) {
        let (rankings, finish_times) = draw_finish(seed);
        assert_eq!(rankings.len(), 6);
        assert_eq!(finish_times.len(), 6);
        let mut seen = [false; 6];
        for id in &rankings {
            assert!(!seen[*id as usize]);
            seen[*id as usize] = true;
        }
        for (position, time) in finish_times.iter().enumerate() {
            let base = 50 + 2 * position as u64;
            assert!(base <= *time && *time <= base + 4);
        }
    }
}

#[test]
fn draw_has_its_exact_values() {
    assert_eq!(draw_finish(12345), (vec![3, 0, 1, 2, 5, 4], vec![50, 55, 58, 59, 60, 62]));
    assert_eq!(draw_finish(0), (vec![4, 2, 1, 5, 3, 0], vec![51, 56, 57, 58, 58, 64]));
    assert_eq!(draw_finish(1), (vec![4, 0, 3, 1, 2, 5], vec![50, 53, 58, 56, 60, 61]));
    assert_eq!(draw_finish(42), (vec![4, 1, 0, 3, 5, 2], vec![54, 53, 56, 57, 60, 62]));
    assert_eq!(draw_finish(u64::MAX), (vec![5, 1, 0, 2, 3, 4], vec![54, 54, 56, 60, 61, 64]));
}

#[test]
fn empty_odds_table_pays_nothing() {
    let table = OddsTable::new();
    for first in 0..8u8 {
        for second in 0..8u8 {
            assert_eq!(table.get_multiplier(first, second), 0);
        }
    }
}

#[test]
fn initialize_multipliers_fills_the_thirty_pairs() {
    let table = initialize_multipliers();
    let mut paying = 0;
    for first in 0..6u8 {
        for second in 0..6u8 {
            if table.get_multiplier(first, second) > 0 {
                assert!(first != second);
                paying += 1;
            }
        }
    }
    assert_eq!(paying, 30);
    assert_eq!(table.get_multiplier(0, 1), 2);
    assert_eq!(table.get_multiplier(1, 0), 3);
    assert_eq!(table.get_multiplier(3, 2), 12);
    assert_eq!(table.get_multiplier(4, 3), 300);
    assert_eq!(table.get_multiplier(5, 4), 1500);
    assert_eq!(table.get_multiplier(1, 8), 0);
}

#[test]
fn probability_table_follows_the_odds_it_is_given() {
    assert!(exacta_probability_table(&OddsTable::new()).is_empty());
    let table = exacta_probability_table(&initialize_multipliers());
    assert_eq!(table.len(), 30);
    assert_eq!(
        table[4],
        ExactaProbability { first: 0, second: 5, probability: 190, multiplier: 60 }
    );
    assert_eq!(calculate_exacta_probability(1, 0), 892);
}

#[test]
fn ledger_keeps_one_balance_for_each_account() {
    let a = AccountId([1u8; 32]);
    let b = AccountId([2u8; 32]);
    let mut ledger = BalanceLedger::new();
    assert_eq!(ledger.balance_of(a), 0);

    ledger.set_balance(a, 10);
    ledger.set_balance(b, 20);
    assert_eq!(ledger.balance_of(a), 10);
    assert_eq!(ledger.balance_of(b), 20);

    ledger.set_balance(a, 35);
    assert_eq!(ledger.balance_of(a), 35);
    assert_eq!(ledger.balance_of(b), 20);
    ledger.set_balance(b, 0);
    assert_eq!(ledger.balance_of(b), 0);
    assert_eq!(ledger.balance_of(a), 35);

    let copy = ledger.clone();
    ledger.set_balance(a, 1);
    assert_eq!(copy.balance_of(a), 35);
    assert_eq!(ledger.balance_of(a), 1);

    let entry = LedgerEntry { account: a, balance: 1 };
    assert_eq!(entry.balance, ledger.balance_of(entry.account));
}

#[test]
fn ledger_lines_round_trip_and_the_first_line_counts() {
    let a = AccountId([1u8; 32]);
    let b = AccountId([2u8; 32]);
    let ledger = BalanceLedger::from_entries(vec![
        LedgerEntry { account: a, balance: 5 },
        LedgerEntry { account: b, balance: 6 },
        LedgerEntry { account: a, balance: 7 },
    ]);
    assert_eq!(ledger.balance_of(a), 5);
    assert_eq!(ledger.balance_of(b), 6);
    let copy = BalanceLedger::from_entries(ledger.to_entries());
    assert_eq!(copy.balance_of(a), 5);
    assert_eq!(copy.balance_of(b), 6);
    assert_eq!(copy.balance_of(AccountId([3u8; 32])), 0);
}

#[test]
fn stake_total_adds_up_or_tells_that_it_cannot() {
    let bet = |amount: u128| ExactaBet {
        bettor: AccountId([1u8; 32]),
        amount,
        first_pick: 0,
        second_pick: 1,
        timestamp: 0,
    };
    assert_eq!(stake_total(&vec![]), Some(0));
    assert_eq!(stake_total(&vec![bet(3), bet(4), bet(5)]), Some(12));
    assert_eq!(stake_total(&vec![bet(u128::MAX - 1), bet(1)]), Some(u128::MAX));
    assert_eq!(stake_total(&vec![bet(u128::MAX), bet(1)]), None);
}
