//! The vault record and the operations on it: deposits, redemptions, and the
//! periodic yield check that may move the pool to a better protocol.
//!
//! Every operation takes the record by reference. It either completes, or
//! reports a fault and leaves the record as it was (the one exception, an
//! empty oracle report, still counts as a completed check for the cooldown).

use vstd::prelude::*;
use crate::error::{ArithmeticFault, VaultError};
use crate::monitor::{due, is_due, COOLDOWN_SECONDS};
use crate::oracle::{best_index, ProtocolYield, ProtocolYieldView, YieldReport};
use crate::shares::{
    amount_for_shares, amount_to_return, lemma_deposit_covers_amount,
    lemma_redemption_keeps_cover, lemma_redemption_within_pool, shares_for_deposit,
    shares_to_issue, unpriceable,
};

verus! {

/// The pool pays one part in this many as a flat fee whenever it moves.
pub const FEE_DIVISOR: u64 = 1000;

/// The persisted record of one vault.
#[derive(Clone, Debug, PartialEq, Eq)]
pub struct NectarfiState {
    /// When yields were last evaluated, in seconds.
    pub last_yield_check: i64,
    /// Yield of the selected protocol, in basis points.
    pub current_best_yield: u64,
    /// Base-asset units held by the pool.
    pub total_deposits: u64,
    /// Claim tokens outstanding.
    pub claim_supply: u64,
    /// Name of the selected protocol; `"None"` until the first rebalance.
    pub current_best_protocol: String,
}

/// The vault record as mathematical values.
pub struct VaultView {
    pub last_yield_check: int,
    pub current_best_yield: nat,
    pub total_deposits: nat,
    pub claim_supply: nat,
    pub current_best_protocol: Seq<char>,
}

/// The audit record of one rebalance.
#[derive(Clone, Debug, PartialEq, Eq)]
pub struct RebalanceEvent {
    pub timestamp: i64,
    pub new_protocol: String,
    pub new_yield: u64,
    /// Base units in the pool after the fee.
    pub total_balance: u64,
}

/// The audit record as mathematical values.
pub struct RebalanceEventView {
    pub timestamp: int,
    pub new_protocol: Seq<char>,
    pub new_yield: nat,
    pub total_balance: nat,
}

/// How a yield check that completed ended.
#[derive(Clone, Debug, PartialEq, Eq)]
pub enum CheckOutcome {
    /// The cooldown has not elapsed; nothing was evaluated.
    CooldownActive,
    /// No protocol beats the selected one.
    NoChange,
    /// The pool moved to a better protocol.
    Rebalanced(RebalanceEvent),
}

impl View for NectarfiState {
    type V = VaultView;

    open spec fn view(&self) -> VaultView {
        VaultView {
            last_yield_check: self.last_yield_check as int,
            current_best_yield: self.current_best_yield as nat,
            total_deposits: self.total_deposits as nat,
            claim_supply: self.claim_supply as nat,
            current_best_protocol: self.current_best_protocol@,
        }
    }
}

impl View for RebalanceEvent {
    type V = RebalanceEventView;

    open spec fn view(&self) -> RebalanceEventView {
        RebalanceEventView {
            timestamp: self.timestamp as int,
            new_protocol: self.new_protocol@,
            new_yield: self.new_yield as nat,
            total_balance: self.total_balance as nat,
        }
    }
}

/// The name that stands for "no protocol selected yet".
pub open spec fn no_protocol() -> Seq<char> {
    "None"@
}

/// A vault as `initialize` creates it at time `now`.
pub open spec fn initial_vault(now: int) -> VaultView {
    VaultView {
        last_yield_check: now,
        current_best_yield: 0,
        total_deposits: 0,
        claim_supply: 0,
        current_best_protocol: no_protocol(),
    }
}

/// The flat fee charged on a pool of `total_deposits` when it moves.
pub open spec fn reallocation_fee(total_deposits: nat) -> nat {
    total_deposits / (FEE_DIVISOR as nat)
}

impl VaultView {
    /// The peg: claim tokens exist exactly when the pool holds something, and
    /// a claim token is worth at most one base unit.
    pub open spec fn wf(self) -> bool {
        &&& self.total_deposits <= self.claim_supply
        &&& self.claim_supply > 0 ==> self.total_deposits > 0
    }

    /// Claim tokens that a deposit of `amount` earns.
    pub open spec fn deposit_shares(self, amount: nat) -> nat {
        shares_for_deposit(amount, self.claim_supply, self.total_deposits)
    }

    /// Why a deposit of `amount` is refused, if it is.
    pub open spec fn deposit_fault(self, amount: nat) -> Option<VaultError> {
        if unpriceable(self.claim_supply, self.total_deposits) {
            Some(VaultError::InconsistentState)
        } else if self.deposit_shares(amount) > u64::MAX || self.total_deposits + amount > u64::MAX
            || self.claim_supply + self.deposit_shares(amount) > u64::MAX {
            Some(VaultError::Arithmetic(ArithmeticFault::Overflow))
        } else {
            None
        }
    }

    /// The vault after a deposit of `amount`.
    pub open spec fn after_deposit(self, amount: nat) -> VaultView {
        VaultView {
            total_deposits: self.total_deposits + amount,
            claim_supply: self.claim_supply + self.deposit_shares(amount),
            ..self
        }
    }

    /// Base units that redeeming `shares` pays out.
    pub open spec fn withdraw_amount(self, shares: nat) -> nat {
        amount_for_shares(shares, self.claim_supply, self.total_deposits)
    }

    /// Why a redemption of `shares` is refused, if it is.
    pub open spec fn withdraw_fault(self, shares: nat) -> Option<VaultError> {
        if self.claim_supply == 0 {
            Some(VaultError::Arithmetic(ArithmeticFault::DivisionByZero))
        } else if shares > self.claim_supply || self.withdraw_amount(shares) > self.total_deposits {
            Some(VaultError::Arithmetic(ArithmeticFault::Underflow))
        } else {
            None
        }
    }

    /// The vault after a redemption of `shares`.
    pub open spec fn after_withdraw(self, shares: nat) -> VaultView {
        VaultView {
            total_deposits: (self.total_deposits - self.withdraw_amount(shares)) as nat,
            claim_supply: (self.claim_supply - shares) as nat,
            ..self
        }
    }

    /// The vault with its cooldown restarted at `now`.
    pub open spec fn checked_at(self, now: int) -> VaultView {
        VaultView { last_yield_check: now, ..self }
    }

    /// The vault after it moved to `best` at time `now` and paid the fee.
    pub open spec fn after_rebalance(self, now: int, best: ProtocolYieldView) -> VaultView {
        VaultView {
            last_yield_check: now,
            current_best_yield: best.yield_bps,
            total_deposits: (self.total_deposits - reallocation_fee(self.total_deposits)) as nat,
            claim_supply: self.claim_supply,
            current_best_protocol: best.protocol,
        }
    }

    /// The audit record of the move to `best` at time `now`.
    pub open spec fn rebalance_event(self, now: int, best: ProtocolYieldView) -> RebalanceEventView {
        RebalanceEventView {
            timestamp: now,
            new_protocol: best.protocol,
            new_yield: best.yield_bps,
            total_balance: (self.total_deposits - reallocation_fee(self.total_deposits)) as nat,
        }
    }

    /// Whether a check at `now` evaluates the report at all.
    pub open spec fn check_due(self, now: int) -> bool {
        due(now, self.last_yield_check, COOLDOWN_SECONDS as int)
    }

    /// Whether a check at `now` with this report moves the pool: the check is
    /// due, and the best quote is strictly better than the selected yield.
    pub open spec fn rebalances(self, now: int, yields: Seq<ProtocolYieldView>) -> bool {
        &&& self.check_due(now)
        &&& yields.len() > 0
        &&& yields[best_index(yields)].yield_bps > self.current_best_yield
    }

    /// The vault after a yield check at `now` with this report.
    pub open spec fn after_check(self, now: int, yields: Seq<ProtocolYieldView>) -> VaultView {
        if !self.check_due(now) {
            self
        } else if self.rebalances(now, yields) {
            self.after_rebalance(now, yields[best_index(yields)])
        } else {
            self.checked_at(now)
        }
    }
}

impl NectarfiState {
    /// The record satisfies the peg.
    pub open spec fn wf(&self) -> bool {
        self@.wf()
    }
}

/// Creates the record of an empty vault whose cooldown starts at `now`.
pub fn initialize(now: i64) -> (state: NectarfiState)
    ensures
        state@ == initial_vault(now as int),
        state.wf(),
{
    NectarfiState {
        last_yield_check: now,
        current_best_yield: 0,
        total_deposits: 0,
        claim_supply: 0,
        current_best_protocol: "None".to_owned(),
    }
}

/// Takes `amount` base units into the pool and returns the claim tokens to
/// mint for the depositor.
///
/// The deposit goes through unless `deposit_fault` names a fault: the pool
/// cannot price it, or the claim tokens, the new balance or the new claim
/// supply do not fit in 64 bits. On success the record counts the new units
/// and the new claim tokens. On failure the record is unchanged.
pub fn deposit(state: &mut NectarfiState, amount: u64) -> (result: Result<u64, VaultError>)
    requires
        amount > 0,
    ensures
        match result {
            Ok(shares) => {
                &&& old(state)@.deposit_fault(amount as nat) is None
                &&& shares == old(state)@.deposit_shares(amount as nat)
                &&& final(state)@ == old(state)@.after_deposit(amount as nat)
            },
            Err(fault) => {
                &&& old(state)@.deposit_fault(amount as nat) == Some(fault)
                &&& *final(state) == *old(state)
            },
        },
        old(state).wf() ==> final(state).wf(),
{
    let shares: u64 = match shares_to_issue(amount, state.claim_supply, state.total_deposits) {
        Ok(shares) => shares,
        Err(fault) => {
            return Err(fault);
        },
    };
    let new_total: u64 = match state.total_deposits.checked_add(amount) {
        Some(sum) => sum,
        None => {
            return Err(VaultError::Arithmetic(ArithmeticFault::Overflow));
        },
    };
    let new_supply: u64 = match state.claim_supply.checked_add(shares) {
        Some(sum) => sum,
        None => {
            return Err(VaultError::Arithmetic(ArithmeticFault::Overflow));
        },
    };
    proof {
        if old(state).wf() && state.total_deposits > 0 {
            lemma_deposit_covers_amount(
                amount as nat,
                state.claim_supply as nat,
                state.total_deposits as nat,
            );
        }
    }
    state.total_deposits = new_total;
    state.claim_supply = new_supply;
    Ok(shares)
}

/// Redeems `nct_amount` claim tokens and returns the base units to pay out.
///
/// The redemption goes through unless `withdraw_fault` names a fault: no
/// claim tokens exist, or more are redeemed than exist, or the pool does not
/// hold what they are worth. On success the record no longer counts the
/// redeemed claim tokens nor the units paid out. On failure the record is
/// unchanged.
pub fn withdraw(state: &mut NectarfiState, nct_amount: u64) -> (result: Result<u64, VaultError>)
    requires
        nct_amount > 0,
    ensures
        match result {
            Ok(amount) => {
                &&& old(state)@.withdraw_fault(nct_amount as nat) is None
                &&& amount == old(state)@.withdraw_amount(nct_amount as nat)
                &&& final(state)@ == old(state)@.after_withdraw(nct_amount as nat)
            },
            Err(fault) => {
                &&& old(state)@.withdraw_fault(nct_amount as nat) == Some(fault)
                &&& *final(state) == *old(state)
            },
        },
        old(state).wf() ==> final(state).wf(),
{
    let amount: u64 = match amount_to_return(nct_amount, state.claim_supply, state.total_deposits) {
        Ok(amount) => amount,
        Err(fault) => {
            return Err(fault);
        },
    };
    if nct_amount > state.claim_supply {
        return Err(VaultError::Arithmetic(ArithmeticFault::Underflow));
    }
    proof {
        lemma_redemption_within_pool(
            nct_amount as nat,
            state.claim_supply as nat,
            state.total_deposits as nat,
        );
        if old(state).wf() {
            lemma_redemption_keeps_cover(
                nct_amount as nat,
                state.claim_supply as nat,
                state.total_deposits as nat,
            );
        }
    }
    state.claim_supply = state.claim_supply - nct_amount;
    state.total_deposits = state.total_deposits - amount;
    Ok(amount)
}

/// Computes the flat fee that a pool of `total_deposits` pays when it moves.
pub fn transfer_fee(total_deposits: u64) -> (fee: u64)
    ensures
        fee == reallocation_fee(total_deposits as nat),
        fee <= total_deposits,
{
    total_deposits / FEE_DIVISOR
}

/// Moves the pool to `best`: charges the flat fee, records the new protocol
/// and its yield, restarts the cooldown and returns the audit record.
///
/// The fee is struck off the recorded balance and credited to nobody. No
/// claim token is burnt for it, so every claim token is worth that much less.
fn rebalance_funds(state: &mut NectarfiState, now: i64, best: &ProtocolYield) -> (event:
    RebalanceEvent)
    requires
        best.yield_bps > old(state).current_best_yield,
    ensures
        final(state)@ == old(state)@.after_rebalance(now as int, best@),
        event@ == old(state)@.rebalance_event(now as int, best@),
        old(state).wf() ==> final(state).wf(),
{
    let fee: u64 = transfer_fee(state.total_deposits);
    state.total_deposits = state.total_deposits - fee;
    state.current_best_yield = best.yield_bps;
    state.current_best_protocol = best.protocol.clone();
    state.last_yield_check = now;
    RebalanceEvent {
        timestamp: now,
        new_protocol: best.protocol.clone(),
        new_yield: best.yield_bps,
        total_balance: state.total_deposits,
    }
}

/// Runs the periodic yield check at time `now` against the oracle's report.
///
/// Within the cooldown nothing happens at all. Otherwise the cooldown
/// restarts at `now`, and the pool moves to the best quote if, and only if,
/// that quote is strictly better than the selected yield. An empty report is
/// a fault, after which the cooldown has still restarted.
pub fn check_yields(state: &mut NectarfiState, now: i64, yields: &YieldReport) -> (result:
    Result<CheckOutcome, VaultError>)
    ensures
        final(state)@ == old(state)@.after_check(now as int, yields@),
        !old(state)@.check_due(now as int) ==> *final(state) == *old(state),
        match result {
            Ok(CheckOutcome::CooldownActive) => !old(state)@.check_due(now as int),
            Ok(CheckOutcome::NoChange) => {
                &&& old(state)@.check_due(now as int)
                &&& yields@.len() > 0
                &&& !old(state)@.rebalances(now as int, yields@)
            },
            Ok(CheckOutcome::Rebalanced(event)) => {
                &&& old(state)@.rebalances(now as int, yields@)
                &&& event@ == old(state)@.rebalance_event(
                    now as int,
                    yields@[best_index(yields@)],
                )
            },
            Err(VaultError::NoYieldData) => old(state)@.check_due(now as int) && yields@.len() == 0,
            Err(_) => false,
        },
        old(state).wf() ==> final(state).wf(),
{
    if !is_due(now, state.last_yield_check, COOLDOWN_SECONDS) {
        return Ok(CheckOutcome::CooldownActive);
    }
    match yields.select_best() {
        None => {
            state.last_yield_check = now;
            Err(VaultError::NoYieldData)
        },
        Some(index) => {
            let best = yields.quote(index);
            if best.yield_bps > state.current_best_yield {
                let event = rebalance_funds(state, now, best);
                Ok(CheckOutcome::Rebalanced(event))
            } else {
                state.last_yield_check = now;
                Ok(CheckOutcome::NoChange)
            }
        },
    }
}

} // verus!
