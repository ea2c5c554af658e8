//! What holds of the vault's operations taken together.

use vstd::prelude::*;
use crate::ledger::{tally, Ledger, Request};
use crate::monitor::COOLDOWN_SECONDS;
use crate::oracle::{best_index, is_best, lemma_best_index_is_best, ProtocolYieldView};
use crate::error::VaultError;
use crate::shares::{
    lemma_deposit_covers_amount, lemma_div_at_least, lemma_div_below, lemma_floor_div,
    lemma_redemption_keeps_cover, lemma_redemption_within_pool,
};
use crate::vault::{reallocation_fee, NectarfiState, VaultView};

verus! {

/// A deposit into a pool that holds nothing is priced one to one: into an
/// empty vault it goes through and earns exactly as many claim tokens as base
/// units paid in. It is refused only where claim tokens are outstanding
/// against the empty pool.
pub proof fn law_first_deposit_at_par(state: NectarfiState, amount: u64)
    requires
        state.total_deposits == 0,
        amount > 0,
    ensures
        state@.deposit_shares(amount as nat) == amount,
        state.claim_supply == 0 ==> {
            &&& state@.deposit_fault(amount as nat) is None
            &&& state@.after_deposit(amount as nat).total_deposits == amount
            &&& state@.after_deposit(amount as nat).claim_supply == amount
        },
        state.claim_supply != 0 ==> state@.deposit_fault(amount as nat) == Some(
            VaultError::InconsistentState,
        ),
{
}

/// A deposit that goes through keeps the peg.
pub proof fn law_deposit_keeps_peg(vault: VaultView, amount: nat)
    requires
        vault.wf(),
        amount > 0,
        vault.deposit_fault(amount) is None,
    ensures
        vault.after_deposit(amount).wf(),
{
    if vault.total_deposits > 0 {
        lemma_deposit_covers_amount(amount, vault.claim_supply, vault.total_deposits);
    }
}

/// A redemption that goes through keeps the peg.
pub proof fn law_withdraw_keeps_peg(vault: VaultView, shares: nat)
    requires
        vault.wf(),
        vault.withdraw_fault(shares) is None,
    ensures
        vault.after_withdraw(shares).wf(),
{
    lemma_redemption_within_pool(shares, vault.claim_supply, vault.total_deposits);
    lemma_redemption_keeps_cover(shares, vault.claim_supply, vault.total_deposits);
}

/// At par every request is settled one to one, so the ledger stays at par.
pub proof fn lemma_apply_keeps_par(ledger: Ledger, request: Request)
    requires
        ledger.at_par(),
    ensures
        ledger.apply(request).at_par(),
{
    let next = ledger.apply(request);
    let supply = ledger.vault.claim_supply;
    if ledger.accepts(request) {
        match request {
            Request::Deposit { holder, amount } => {
                if supply > 0 {
                    assert((amount * supply) / supply == amount) by (nonlinear_arith)
                        requires
                            supply > 0,
                    ;
                }
                assert(ledger.vault.deposit_shares(amount) == amount);
                assert forall|other: int|
                    tally(next.paid_out, other) + #[trigger] tally(next.held, other) == tally(
                        next.paid_in,
                        other,
                    ) by {
                    assert(tally(ledger.paid_out, other) + tally(ledger.held, other) == tally(
                        ledger.paid_in,
                        other,
                    ));
                }
            },
            Request::Withdraw { holder, shares } => {
                assert((shares * supply) / supply == shares) by (nonlinear_arith)
                    requires
                        supply > 0,
                ;
                assert(ledger.vault.withdraw_amount(shares) == shares);
                assert forall|other: int|
                    tally(next.paid_out, other) + #[trigger] tally(next.held, other) == tally(
                        next.paid_in,
                        other,
                    ) by {
                    assert(tally(ledger.paid_out, other) + tally(ledger.held, other) == tally(
                        ledger.paid_in,
                        other,
                    ));
                }
            },
        }
    }
}

/// A history of deposits and redemptions that starts at par ends at par.
pub proof fn lemma_replay_keeps_par(ledger: Ledger, requests: Seq<Request>)
    requires
        ledger.at_par(),
    ensures
        ledger.replay(requests).at_par(),
    decreases requests.len(),
{
    if requests.len() > 0 {
        lemma_replay_keeps_par(ledger, requests.drop_last());
        lemma_apply_keeps_par(ledger.replay(requests.drop_last()), requests.last());
    }
}

/// Over any history of deposits and redemptions on a fresh vault, with no
/// rebalance in between, no holder is paid out more than the holder paid in:
/// rounding never favours the one who withdraws.
pub proof fn law_no_holder_gains(now: int, requests: Seq<Request>, holder: int)
    ensures
        tally(Ledger::opening(now).replay(requests).paid_out, holder) <= tally(
            Ledger::opening(now).replay(requests).paid_in,
            holder,
        ),
{
    let opening = Ledger::opening(now);
    assert(opening.at_par()) by {
        assert forall|other: int|
            tally(opening.paid_out, other) + #[trigger] tally(opening.held, other) == tally(
                opening.paid_in,
                other,
            ) by {}
    }
    lemma_replay_keeps_par(opening, requests);
    let closing = opening.replay(requests);
    assert(tally(closing.paid_out, holder) + tally(closing.held, holder) == tally(
        closing.paid_in,
        holder,
    ));
}

/// Redeeming claim tokens and depositing the proceeds at once puts the pool
/// back to its balance and returns at least one claim token, and never more
/// than were redeemed: the claim supply ends lower by at most the redeemed
/// amount minus one.
pub proof fn law_redeposit_loses_less_than_redeemed(state: NectarfiState, shares: u64)
    requires
        state.wf(),
        shares > 0,
        state@.withdraw_fault(shares as nat) is None,
        state@.withdraw_amount(shares as nat) > 0,
    ensures
        ({
            let proceeds = state@.withdraw_amount(shares as nat);
            let between = state@.after_withdraw(shares as nat);
            let after = between.after_deposit(proceeds);
            &&& between.deposit_fault(proceeds) is None
            &&& after.total_deposits == state.total_deposits
            &&& after.claim_supply <= state.claim_supply
            &&& state.claim_supply - after.claim_supply <= shares - 1
        }),
{
    let redeemed = shares as nat;
    let supply = state@.claim_supply;
    let total = state@.total_deposits;
    let proceeds = state@.withdraw_amount(redeemed);
    let between = state@.after_withdraw(redeemed);
    lemma_redemption_within_pool(redeemed, supply, total);
    lemma_redemption_keeps_cover(redeemed, supply, total);
    lemma_floor_div(redeemed * total, supply);
    if between.total_deposits > 0 {
        let rest_supply = between.claim_supply;
        let rest_total = between.total_deposits;
        // The proceeds buy back no more than was redeemed ...
        assert(proceeds * rest_supply < (redeemed + 1) * rest_total) by (nonlinear_arith)
            requires
                proceeds * supply <= redeemed * total,
                rest_supply == supply - redeemed,
                rest_total == total - proceeds,
                rest_total > 0,
        ;
        lemma_div_below(proceeds * rest_supply, rest_total, redeemed + 1int);
        // ... and at least one claim token.
        assert(1 * rest_total <= proceeds * rest_supply) by (nonlinear_arith)
            requires
                rest_supply == supply - redeemed,
                rest_total == total - proceeds,
                rest_supply >= 1,
                proceeds >= 1,
                total - proceeds <= supply - redeemed,
                redeemed + total <= supply + proceeds,
        ;
        lemma_div_at_least(proceeds * rest_supply, rest_total, 1);
    }
}

/// Depositing and redeeming the claim tokens earned at once pays back the
/// deposit or one base unit less, never more: a round trip loses at most one
/// unit, and loses it to the pool.
pub proof fn law_round_trip_loses_at_most_one(state: NectarfiState, amount: u64)
    requires
        state.wf(),
        amount > 0,
        state@.deposit_fault(amount as nat) is None,
    ensures
        ({
            let earned = state@.deposit_shares(amount as nat);
            let between = state@.after_deposit(amount as nat);
            &&& earned > 0
            &&& between.withdraw_fault(earned) is None
            &&& amount - 1 <= between.withdraw_amount(earned) <= amount
        }),
{
    let paid = amount as nat;
    let supply = state@.claim_supply;
    let total = state@.total_deposits;
    let earned = state@.deposit_shares(paid);
    let between = state@.after_deposit(paid);
    if total > 0 {
        lemma_deposit_covers_amount(paid, supply, total);
        lemma_floor_div(paid * supply, total);
        let new_supply = between.claim_supply;
        let new_total = between.total_deposits;
        lemma_redemption_within_pool(earned, new_supply, new_total);
        assert(earned * new_total < (paid + 1) * new_supply) by (nonlinear_arith)
            requires
                earned * total <= paid * supply,
                new_supply == supply + earned,
                new_total == total + paid,
                new_supply > 0,
        ;
        lemma_div_below(earned * new_total, new_supply, paid + 1int);
        assert((paid - 1) * new_supply <= earned * new_total) by (nonlinear_arith)
            requires
                paid * supply < (earned + 1) * total,
                new_supply == supply + earned,
                new_total == total + paid,
                total <= supply,
                earned >= 0,
        ;
        lemma_div_at_least(earned * new_total, new_supply, paid - 1);
    } else {
        assert((paid * paid) / paid == paid) by (nonlinear_arith)
            requires
                paid > 0,
        ;
    }
}

/// A yield check within the cooldown window of the check before it changes
/// nothing: not the selected protocol or its yield, not the pool's balance,
/// and not the time of the last check. After a check that was due the window
/// starts at the time of that check.
pub proof fn law_check_within_cooldown_changes_nothing(
    vault: VaultView,
    first: int,
    first_report: Seq<ProtocolYieldView>,
    second: int,
    second_report: Seq<ProtocolYieldView>,
)
    requires
        second - vault.after_check(first, first_report).last_yield_check < COOLDOWN_SECONDS,
    ensures
        vault.after_check(first, first_report).after_check(second, second_report)
            == vault.after_check(first, first_report),
        vault.check_due(first) ==> vault.after_check(first, first_report).last_yield_check
            == first,
{
}

/// A check that is due moves the pool if, and only if, the best quote is
/// strictly better than the selected yield. When it moves, the best quote is
/// selected and the fee is paid; when it does not, the selection, the balance
/// and the claim supply stay as they were.
pub proof fn law_rebalance_iff_strictly_better(
    vault: VaultView,
    now: int,
    report: Seq<ProtocolYieldView>,
)
    requires
        vault.check_due(now),
        report.len() > 0,
    ensures
        is_best(report, best_index(report)),
        vault.rebalances(now, report) <==> report[best_index(report)].yield_bps
            > vault.current_best_yield,
        vault.rebalances(now, report) ==> {
            let after = vault.after_check(now, report);
            &&& after.current_best_protocol == report[best_index(report)].protocol
            &&& after.current_best_yield == report[best_index(report)].yield_bps
            &&& after.total_deposits == vault.total_deposits - reallocation_fee(
                vault.total_deposits,
            )
            &&& after.claim_supply == vault.claim_supply
        },
        !vault.rebalances(now, report) ==> {
            let after = vault.after_check(now, report);
            &&& after.current_best_protocol == vault.current_best_protocol
            &&& after.current_best_yield == vault.current_best_yield
            &&& after.total_deposits == vault.total_deposits
            &&& after.claim_supply == vault.claim_supply
        },
{
    lemma_best_index_is_best(report);
}

/// The selected yield never goes down, and the time of the last check never
/// goes back, whatever a check does.
pub proof fn law_check_is_monotonic(vault: VaultView, now: int, report: Seq<ProtocolYieldView>)
    ensures
        vault.after_check(now, report).current_best_yield >= vault.current_best_yield,
        vault.after_check(now, report).last_yield_check >= vault.last_yield_check,
{
}

/// A check takes nothing but the fee out of the pool, leaves the claim supply
/// alone and keeps the peg. The fee is less than the balance, and it is
/// positive as soon as the pool that moves holds a thousand units.
pub proof fn law_fee_is_the_only_loss(vault: VaultView, now: int, report: Seq<ProtocolYieldView>)
    ensures
        vault.after_check(now, report).claim_supply == vault.claim_supply,
        vault.after_check(now, report).total_deposits == if vault.rebalances(now, report) {
            vault.total_deposits - reallocation_fee(vault.total_deposits)
        } else {
            vault.total_deposits as int
        },
        vault.total_deposits > 0 ==> reallocation_fee(vault.total_deposits)
            < vault.total_deposits,
        reallocation_fee(vault.total_deposits) > 0 <==> vault.total_deposits >= 1000,
        vault.wf() ==> vault.after_check(now, report).wf(),
{
}

} // verus!
