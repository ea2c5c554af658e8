//! Conversion between base-asset amounts and claim tokens at the pool's
//! current ratio. Both directions round down, so rounding always favours the
//! holders who stay in the pool.

use vstd::prelude::*;
use crate::error::{ArithmeticFault, VaultError};

verus! {

/// Claim tokens issued for a deposit of `amount` into a pool that holds
/// `total_deposits` base units against `supply` claim tokens: one to one into
/// an empty pool, otherwise `amount * supply / total_deposits`, rounded down.
pub open spec fn shares_for_deposit(amount: nat, supply: nat, total_deposits: nat) -> nat {
    if total_deposits == 0 {
        amount
    } else {
        (amount * supply) / total_deposits
    }
}

/// Base units paid out for `shares` claim tokens:
/// `shares * total_deposits / supply`, rounded down.
pub open spec fn amount_for_shares(shares: nat, supply: nat, total_deposits: nat) -> nat
    recommends
        supply > 0,
{
    (shares * total_deposits) / supply
}

/// A deposit has no price when claim tokens exist but the pool is empty.
pub open spec fn unpriceable(supply: nat, total_deposits: nat) -> bool {
    total_deposits == 0 && supply != 0
}

/// The quotient `n / d` is the largest multiple count of `d` that fits in `n`.
pub proof fn lemma_floor_div(n: nat, d: nat)
    requires
        d > 0,
    ensures
        (n / d) * d <= n,
        n < (n / d + 1) * d,
{
    assert((n / d) * d <= n && n < (n / d + 1) * d) by (nonlinear_arith)
        requires
            d > 0,
            n >= 0,
    ;
}

/// A quotient is at least `q` when the dividend is at least `q * d`.
pub proof fn lemma_div_at_least(n: nat, d: nat, q: int)
    requires
        d > 0,
        q * d <= n,
    ensures
        q <= n / d,
{
    lemma_floor_div(n, d);
    assert(q <= n / d) by (nonlinear_arith)
        requires
            d > 0,
            q * d <= n,
            n < (n / d + 1) * d,
    ;
}

/// A quotient is below `q` when the dividend is below `q * d`.
pub proof fn lemma_div_below(n: nat, d: nat, q: int)
    requires
        d > 0,
        n < q * d,
    ensures
        n / d < q,
{
    lemma_floor_div(n, d);
    assert(n / d < q) by (nonlinear_arith)
        requires
            d > 0,
            n < q * d,
            (n / d) * d <= n,
    ;
}

/// The product of two 64-bit quantities fits in 128 bits.
pub proof fn lemma_product_fits(a: u64, b: u64)
    ensures
        a * b <= u128::MAX,
{
    assert(a * b <= 0xffff_ffff_ffff_ffff * 0xffff_ffff_ffff_ffff) by (nonlinear_arith)
        requires
            0 <= a <= 0xffff_ffff_ffff_ffff,
            0 <= b <= 0xffff_ffff_ffff_ffff,
    ;
}

/// While a claim token is worth at most one base unit, a deposit earns at
/// least as many claim tokens as the base units paid in.
pub proof fn lemma_deposit_covers_amount(amount: nat, supply: nat, total_deposits: nat)
    requires
        0 < total_deposits <= supply,
    ensures
        shares_for_deposit(amount, supply, total_deposits) >= amount,
{
    assert(amount * total_deposits <= amount * supply) by (nonlinear_arith)
        requires
            total_deposits <= supply,
    ;
    lemma_div_at_least(amount * supply, total_deposits, amount as int);
}

/// Redeeming no more claim tokens than exist never asks for more than the
/// pool holds, and asks for all of it only when every claim token is redeemed.
pub proof fn lemma_redemption_within_pool(shares: nat, supply: nat, total_deposits: nat)
    requires
        0 < supply,
        shares <= supply,
    ensures
        amount_for_shares(shares, supply, total_deposits) <= total_deposits,
        shares == supply ==> amount_for_shares(shares, supply, total_deposits) == total_deposits,
        shares < supply && total_deposits > 0 ==> amount_for_shares(
            shares,
            supply,
            total_deposits,
        ) < total_deposits,
{
    let product = shares * total_deposits;
    assert(product < (total_deposits + 1) * supply) by (nonlinear_arith)
        requires
            product == shares * total_deposits,
            shares <= supply,
            0 < supply,
    ;
    lemma_div_below(product, supply, total_deposits + 1int);
    if shares == supply {
        assert(total_deposits * supply <= product) by (nonlinear_arith)
            requires
                product == shares * total_deposits,
                shares == supply,
        ;
        lemma_div_at_least(product, supply, total_deposits as int);
    }
    if shares < supply && total_deposits > 0 {
        assert(product < total_deposits * supply) by (nonlinear_arith)
            requires
                product == shares * total_deposits,
                shares < supply,
                total_deposits > 0,
        ;
        lemma_div_below(product, supply, total_deposits as int);
    }
}

/// While a claim token is worth at most one base unit, a redemption pays out
/// no more than the claim tokens redeemed, and what stays in the pool is still
/// covered by the claim tokens that stay outstanding.
pub proof fn lemma_redemption_keeps_cover(shares: nat, supply: nat, total_deposits: nat)
    requires
        0 < supply,
        shares <= supply,
        total_deposits <= supply,
    ensures
        amount_for_shares(shares, supply, total_deposits) <= shares,
        total_deposits - amount_for_shares(shares, supply, total_deposits) <= supply - shares,
{
    let product = shares * total_deposits;
    assert(product < (shares + 1) * supply) by (nonlinear_arith)
        requires
            product == shares * total_deposits,
            total_deposits <= supply,
            0 < supply,
    ;
    lemma_div_below(product, supply, shares + 1int);
    assert((shares + total_deposits - supply) * supply <= product) by (nonlinear_arith)
        requires
            product == shares * total_deposits,
            shares <= supply,
            total_deposits <= supply,
    ;
    lemma_div_at_least(product, supply, shares + total_deposits - supply);
}

/// Prices a deposit of `amount` base units in claim tokens.
///
/// The product is taken in 128 bits and cannot overflow. The deposit is
/// refused in two cases and no other: as inconsistent when the pool is empty
/// while claim tokens are outstanding, and as an overflow when the quotient
/// does not fit in 64 bits.
pub fn shares_to_issue(amount: u64, supply: u64, total_deposits: u64) -> (result: Result<
    u64,
    VaultError,
>)
    requires
        amount > 0,
    ensures
        match result {
            Ok(shares) => {
                &&& !unpriceable(supply as nat, total_deposits as nat)
                &&& shares == shares_for_deposit(amount as nat, supply as nat, total_deposits as nat)
            },
            Err(VaultError::InconsistentState) => unpriceable(supply as nat, total_deposits as nat),
            Err(VaultError::Arithmetic(ArithmeticFault::Overflow)) => {
                &&& !unpriceable(supply as nat, total_deposits as nat)
                &&& shares_for_deposit(amount as nat, supply as nat, total_deposits as nat)
                    > u64::MAX
            },
            Err(_) => false,
        },
{
    if total_deposits == 0 {
        if supply != 0 {
            return Err(VaultError::InconsistentState);
        }
        return Ok(amount);
    }
    proof {
        lemma_product_fits(amount, supply);
    }
    let product: u128 = amount as u128 * supply as u128;
    let quotient: u128 = product / total_deposits as u128;
    if quotient > u64::MAX as u128 {
        Err(VaultError::Arithmetic(ArithmeticFault::Overflow))
    } else {
        Ok(quotient as u64)
    }
}

/// Prices a redemption of `share_amount` claim tokens in base units.
///
/// The redemption is refused in two cases and no other: with a division
/// fault when no claim tokens exist, and with an underflow when the pool does
/// not hold what the redemption is worth.
pub fn amount_to_return(share_amount: u64, supply: u64, total_deposits: u64) -> (result: Result<
    u64,
    VaultError,
>)
    requires
        share_amount > 0,
    ensures
        match result {
            Ok(amount) => {
                &&& supply > 0
                &&& amount == amount_for_shares(
                    share_amount as nat,
                    supply as nat,
                    total_deposits as nat,
                )
                &&& amount <= total_deposits
            },
            Err(VaultError::Arithmetic(ArithmeticFault::DivisionByZero)) => supply == 0,
            Err(VaultError::Arithmetic(ArithmeticFault::Underflow)) => {
                &&& supply > 0
                &&& amount_for_shares(share_amount as nat, supply as nat, total_deposits as nat)
                    > total_deposits
            },
            Err(_) => false,
        },
{
    if supply == 0 {
        return Err(VaultError::Arithmetic(ArithmeticFault::DivisionByZero));
    }
    proof {
        lemma_product_fits(share_amount, total_deposits);
    }
    let product: u128 = share_amount as u128 * total_deposits as u128;
    let quotient: u128 = product / supply as u128;
    if quotient > total_deposits as u128 {
        Err(VaultError::Arithmetic(ArithmeticFault::Underflow))
    } else {
        Ok(quotient as u64)
    }
}

} // verus!
