//! A model of who holds what: the vault together with each holder's claim
//! tokens and the base units that the holder paid in and was paid out.
//!
//! The vault itself does not know its holders; the token that it issues does.
//! The model exists to state what a history of deposits and redemptions means
//! for a single holder.

use vstd::prelude::*;
use crate::vault::{initial_vault, VaultView};

verus! {

/// What a holder asks of the vault.
pub enum Request {
    /// Pay `amount` base units in.
    Deposit { holder: int, amount: nat },
    /// Redeem `shares` claim tokens.
    Withdraw { holder: int, shares: nat },
}

/// The vault and the accounts of its holders.
pub struct Ledger {
    pub vault: VaultView,
    /// Claim tokens that each holder owns.
    pub held: Map<int, nat>,
    /// Base units that each holder has paid in so far.
    pub paid_in: Map<int, nat>,
    /// Base units that each holder has been paid out so far.
    pub paid_out: Map<int, nat>,
}

/// The entry of `holder` in a tally, zero where there is none.
pub open spec fn tally(entries: Map<int, nat>, holder: int) -> nat {
    if entries.dom().contains(holder) {
        entries[holder]
    } else {
        0
    }
}

impl Ledger {
    /// A fresh vault that nobody has used yet.
    pub open spec fn opening(now: int) -> Ledger {
        Ledger {
            vault: initial_vault(now),
            held: Map::empty(),
            paid_in: Map::empty(),
            paid_out: Map::empty(),
        }
    }

    /// Whether the request goes through: the vault accepts it, and a holder
    /// redeems only claim tokens that the holder owns.
    pub open spec fn accepts(self, request: Request) -> bool {
        match request {
            Request::Deposit { amount, .. } => {
                amount > 0 && self.vault.deposit_fault(amount) is None
            },
            Request::Withdraw { holder, shares } => {
                shares > 0 && shares <= tally(self.held, holder) && self.vault.withdraw_fault(
                    shares,
                ) is None
            },
        }
    }

    /// The ledger after the request. A request that does not go through
    /// changes nothing.
    pub open spec fn apply(self, request: Request) -> Ledger {
        if !self.accepts(request) {
            self
        } else {
            match request {
                Request::Deposit { holder, amount } => Ledger {
                    vault: self.vault.after_deposit(amount),
                    held: self.held.insert(
                        holder,
                        tally(self.held, holder) + self.vault.deposit_shares(amount),
                    ),
                    paid_in: self.paid_in.insert(holder, tally(self.paid_in, holder) + amount),
                    paid_out: self.paid_out,
                },
                Request::Withdraw { holder, shares } => Ledger {
                    vault: self.vault.after_withdraw(shares),
                    held: self.held.insert(holder, (tally(self.held, holder) - shares) as nat),
                    paid_in: self.paid_in,
                    paid_out: self.paid_out.insert(
                        holder,
                        tally(self.paid_out, holder) + self.vault.withdraw_amount(shares),
                    ),
                },
            }
        }
    }

    /// The ledger after a history of requests, oldest first.
    pub open spec fn replay(self, requests: Seq<Request>) -> Ledger
        decreases requests.len(),
    {
        if requests.len() == 0 {
            self
        } else {
            self.replay(requests.drop_last()).apply(requests.last())
        }
    }

    /// The pool is at par, one base unit per claim token, and every holder's
    /// claim tokens are exactly what the holder paid in and has not been paid
    /// out.
    pub open spec fn at_par(self) -> bool {
        &&& self.vault.total_deposits == self.vault.claim_supply
        &&& forall|holder: int|
            tally(self.paid_out, holder) + #[trigger] tally(self.held, holder) == tally(
                self.paid_in,
                holder,
            )
    }
}

} // verus!
