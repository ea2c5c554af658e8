use nectarfi::error::{ArithmeticFault, VaultError};
use nectarfi::shares::{amount_to_return, shares_to_issue};
use nectarfi::vault::{deposit, initialize, withdraw, NectarfiState};

fn vault(total_deposits: u64, claim_supply: u64) -> NectarfiState {
    let mut state = initialize(0);
    state.total_deposits = total_deposits;
    state.claim_supply = claim_supply;
    state
}

#[test]
fn first_deposit_is_priced_one_to_one() {
    for amount in [1u64, 2, 999, 1_000_000, u64::MAX] {
        assert_eq!(shares_to_issue(amount, 0, 0), Ok(amount));
        let mut state = initialize(7);
        assert_eq!(deposit(&mut state, amount), Ok(amount));
        assert_eq!(state.total_deposits, amount);
        assert_eq!(state.claim_supply, amount);
    }
}

#[test]
fn deposit_at_par_adds_equal_shares() {
    let mut state = vault(1000, 1000);
    assert_eq!(deposit(&mut state, 500), Ok(500));
    assert_eq!(state.claim_supply, 1500);
    assert_eq!(state.total_deposits, 1500);
}

#[test]
fn deposit_rounds_shares_down() {
    // 7 * 1000 / 999 = 7.007...
    assert_eq!(shares_to_issue(7, 1000, 999), Ok(7));
    // 10 * 3 / 4 = 7.5
    assert_eq!(shares_to_issue(10, 3, 4), Ok(7));
    // 1 * 2 / 3 = 0.66...
    assert_eq!(shares_to_issue(1, 2, 3), Ok(0));
    // 999 * 1000 / 999 = 1000 exactly
    assert_eq!(shares_to_issue(999, 1000, 999), Ok(1000));
}

#[test]
fn deposit_into_pool_without_claim_tokens_earns_nothing() {
    assert_eq!(shares_to_issue(50, 0, 10), Ok(0));
}

#[test]
fn deposit_uses_a_wide_product() {
    // The product exceeds 64 bits, the quotient does not.
    let big = 1u64 << 40;
    assert_eq!(shares_to_issue(big, big, big), Ok(big));
    assert_eq!(shares_to_issue(u64::MAX, u64::MAX, u64::MAX), Ok(u64::MAX));
    assert_eq!(shares_to_issue(u64::MAX, 3, 6), Ok(u64::MAX / 2));
}

#[test]
fn deposit_with_supply_but_no_deposits_is_inconsistent() {
    assert_eq!(shares_to_issue(10, 5, 0), Err(VaultError::InconsistentState));
    let mut state = vault(0, 5);
    let before = state.clone();
    assert_eq!(deposit(&mut state, 10), Err(VaultError::InconsistentState));
    assert_eq!(state, before);
}

#[test]
fn deposit_overflowing_quotient_is_refused() {
    let overflow = Err(VaultError::Arithmetic(ArithmeticFault::Overflow));
    assert_eq!(shares_to_issue(u64::MAX, 2, 1), overflow);
    let mut state = vault(1, 2);
    let before = state.clone();
    assert_eq!(deposit(&mut state, u64::MAX), overflow);
    assert_eq!(state, before);
}

#[test]
fn deposit_overflowing_balance_is_refused() {
    let overflow = Err(VaultError::Arithmetic(ArithmeticFault::Overflow));
    let mut state = vault(u64::MAX - 1, u64::MAX - 1);
    let before = state.clone();
    assert_eq!(deposit(&mut state, 2), overflow);
    assert_eq!(state, before);
    assert_eq!(deposit(&mut state, 1), Ok(1));
    assert_eq!(state.total_deposits, u64::MAX);
}

#[test]
fn deposit_overflowing_supply_is_refused() {
    let overflow = Err(VaultError::Arithmetic(ArithmeticFault::Overflow));
    // 10 units earn 20 claim tokens, which the supply cannot take.
    let mut state = vault(100, 200);
    state.claim_supply = u64::MAX - 19;
    state.total_deposits = (u64::MAX - 19) / 2;
    let before = state.clone();
    assert_eq!(shares_to_issue(10, state.claim_supply, state.total_deposits), Ok(20));
    assert_eq!(deposit(&mut state, 10), overflow);
    assert_eq!(state, before);
}

#[test]
fn withdraw_pays_the_floor_of_the_share() {
    assert_eq!(amount_to_return(1, 1000, 999), Ok(0));
    assert_eq!(amount_to_return(2, 1000, 999), Ok(1));
    assert_eq!(amount_to_return(500, 1000, 999), Ok(499));
    assert_eq!(amount_to_return(1000, 1000, 999), Ok(999));
    assert_eq!(amount_to_return(1, 3, 2), Ok(0));
    assert_eq!(amount_to_return(u64::MAX, u64::MAX, u64::MAX), Ok(u64::MAX));
}

#[test]
fn withdraw_updates_supply_and_balance() {
    let mut state = vault(1998, 2000);
    assert_eq!(withdraw(&mut state, 500), Ok(499));
    assert_eq!(state.claim_supply, 1500);
    assert_eq!(state.total_deposits, 1499);
}

#[test]
fn withdraw_from_zero_supply_is_a_division_fault() {
    let fault = Err(VaultError::Arithmetic(ArithmeticFault::DivisionByZero));
    assert_eq!(amount_to_return(1, 0, 0), fault);
    assert_eq!(amount_to_return(1, 0, 10), fault);
    let mut state = initialize(0);
    let before = state.clone();
    assert_eq!(withdraw(&mut state, 1), fault);
    assert_eq!(state, before);
}

#[test]
fn withdraw_worth_more_than_the_pool_underflows() {
    let fault = Err(VaultError::Arithmetic(ArithmeticFault::Underflow));
    // 3 * 10 / 2 = 15 > 10
    assert_eq!(amount_to_return(3, 2, 10), fault);
    // The quotient does not even fit in 64 bits.
    assert_eq!(amount_to_return(u64::MAX, 1, u64::MAX), fault);
    let mut state = vault(10, 10);
    let before = state.clone();
    assert_eq!(withdraw(&mut state, 11), fault);
    assert_eq!(state, before);
}

#[test]
fn withdraw_of_more_than_the_supply_underflows() {
    let fault = Err(VaultError::Arithmetic(ArithmeticFault::Underflow));
    // 11 * 5 / 10 = 5 is within the pool, but only 10 claim tokens exist.
    assert_eq!(amount_to_return(11, 10, 5), Ok(5));
    let mut state = vault(5, 10);
    let before = state.clone();
    assert_eq!(withdraw(&mut state, 11), fault);
    assert_eq!(state, before);
}

#[test]
fn withdrawing_everything_empties_the_vault() {
    let mut state = vault(999, 1000);
    assert_eq!(withdraw(&mut state, 1000), Ok(999));
    assert_eq!(state.total_deposits, 0);
    assert_eq!(state.claim_supply, 0);
    // The next deposit is a first deposit again.
    assert_eq!(deposit(&mut state, 42), Ok(42));
    assert_eq!((state.total_deposits, state.claim_supply), (42, 42));
}

#[test]
fn deposits_and_withdrawals_leave_selection_alone() {
    let mut state = vault(1000, 1000);
    state.current_best_yield = 550;
    state.current_best_protocol = String::from("ProtocolB");
    state.last_yield_check = 1234;
    deposit(&mut state, 10).unwrap();
    withdraw(&mut state, 5).unwrap();
    assert_eq!(state.current_best_yield, 550);
    assert_eq!(state.current_best_protocol, "ProtocolB");
    assert_eq!(state.last_yield_check, 1234);
}

#[test]
fn no_holder_is_paid_out_more_than_paid_in() {
    // Three holders on a fresh vault; each entry is (holder, deposit?, quantity).
    let history: [(usize, bool, u64); 12] = [
        (0, true, 1000),
        (1, true, 1),
        (2, true, 333),
        (1, false, 1),
        (0, false, 400),
        (2, true, 7),
        (2, false, 340),
        (1, true, 50),
        (0, false, 600),
        (1, false, 25),
        (1, false, 25),
        (0, true, 3),
    ];
    let mut state = initialize(0);
    let mut held = [0u64; 3];
    let mut paid_in = [0u64; 3];
    let mut paid_out = [0u64; 3];
    for (holder, is_deposit, quantity) in history {
        if is_deposit {
            let shares = deposit(&mut state, quantity).unwrap();
            held[holder] += shares;
            paid_in[holder] += quantity;
        } else {
            assert!(quantity <= held[holder]);
            let amount = withdraw(&mut state, quantity).unwrap();
            held[holder] -= quantity;
            paid_out[holder] += amount;
        }
        for h in 0..3 {
            assert!(paid_out[h] <= paid_in[h]);
            assert_eq!(paid_out[h] + held[h], paid_in[h]);
        }
        assert_eq!(state.total_deposits, state.claim_supply);
    }
    assert_eq!(paid_out, [1000, 51, 340]);
    assert_eq!(state.total_deposits, 3);
}

#[test]
fn redeposit_after_withdraw_loses_less_than_redeemed() {
    // (total deposits, claim supply, shares redeemed)
    let cases: [(u64, u64, u64); 6] = [
        (999, 1000, 2),
        (999, 1000, 500),
        (999, 1000, 1000),
        (1000, 1000, 1),
        (600, 1000, 3),
        (1, 7, 7),
    ];
    for (total, supply, shares) in cases {
        let mut state = vault(total, supply);
        let proceeds = withdraw(&mut state, shares).unwrap();
        assert!(proceeds > 0);
        let regained = deposit(&mut state, proceeds).unwrap();
        assert_eq!(state.total_deposits, total);
        assert!(regained >= 1);
        assert!(state.claim_supply <= supply);
        assert!(supply - state.claim_supply <= shares - 1);
    }
    // Exact values for one case: 2 claim tokens fetch 1 unit, which buys back 1.
    let mut state = vault(999, 1000);
    assert_eq!(withdraw(&mut state, 2), Ok(1));
    assert_eq!((state.total_deposits, state.claim_supply), (998, 998));
    assert_eq!(deposit(&mut state, 1), Ok(1));
    assert_eq!((state.total_deposits, state.claim_supply), (999, 999));
}

#[test]
fn round_trip_loses_at_most_one_unit() {
    let cases: [(u64, u64, u64); 5] =
        [(999, 1000, 1), (999, 1000, 10), (1000, 1000, 77), (600, 1000, 3), (0, 0, 5)];
    for (total, supply, amount) in cases {
        let mut state = vault(total, supply);
        let earned = deposit(&mut state, amount).unwrap();
        let back = withdraw(&mut state, earned).unwrap();
        assert!(back <= amount);
        assert!(amount - back <= 1);
    }
    // 1 unit buys 1 claim token of a pool just under par, which then fetches nothing.
    let mut state = vault(999, 1000);
    assert_eq!(deposit(&mut state, 1), Ok(1));
    assert_eq!(withdraw(&mut state, 1), Ok(0));
    assert_eq!((state.total_deposits, state.claim_supply), (1000, 1000));
}
