//! The transfer engine: simple transfers, the optimistic commit of a
//! transfer-and-notify, and the resolve step that claws back whatever the
//! notified receiver reported unused — returning it to the sender, or
//! burning it if the sender unregistered while the notification ran.

use vstd::prelude::*;

use crate::digits::{dec_val, is_dec_numeral};
use crate::error::TokenError;
use crate::ledger::Ledger;
use crate::model::LedgerModel;

verus! {

/// A transfer-and-notify in flight after its optimistic commit: the values
/// the host must hand to the receiver's notification entry point, and the
/// resolve callback after it.
#[derive(Debug)]
pub struct PendingTransfer {
    pub sender_id: String,
    pub receiver_id: String,
    pub amount: u128,
    pub msg: String,
}

/// The outcome of the receiver's notification stage, as the host delivers
/// it to the resolve callback: the receiver's returned text, or failure.
#[derive(Debug)]
pub enum NotifyOutcome {
    Returned(String),
    Failed,
}

/// The unused amount the resolve step starts from: the receiver's returned
/// numeral clamped to the amount sent; the full amount when the stage
/// failed or returned anything but a numeral in range (a malformed response
/// forfeits the whole transfer back to the sender, never the ledger's
/// consistency).
pub open spec fn claimed_unused(outcome: NotifyOutcome, amount: u128) -> nat {
    match outcome {
        NotifyOutcome::Failed => amount as nat,
        NotifyOutcome::Returned(s) => {
            if is_dec_numeral(s@) && dec_val(s@) <= u128::MAX {
                if dec_val(s@) <= amount as nat {
                    dec_val(s@)
                } else {
                    amount as nat
                }
            } else {
                amount as nat
            }
        },
    }
}

/// Which error a transfer of `amount` from `sender` to `receiver` on ledger
/// state `m` raises: the first violated condition in validation order —
/// zero amount, self transfer, unregistered sender, unregistered receiver,
/// insufficient balance.
pub open spec fn transfer_error(
    m: LedgerModel,
    sender: Seq<char>,
    receiver: Seq<char>,
    amount: u128,
    e: TokenError,
) -> bool {
    match e {
        TokenError::ZeroAmount => amount == 0,
        TokenError::SelfTransfer => amount > 0 && sender == receiver,
        TokenError::NotRegistered(a) => {
            &&& amount > 0
            &&& sender != receiver
            &&& (if !m.registered(sender) {
                a@ == sender
            } else {
                a@ == receiver && !m.registered(receiver)
            })
        },
        TokenError::InsufficientBalance => {
            &&& amount > 0
            &&& sender != receiver
            &&& m.registered(sender)
            &&& m.registered(receiver)
            &&& amount > m.balance_of(sender)
        },
        _ => false,
    }
}

impl Ledger {
    /// A simple transfer: `amount` moves from `sender_id` to `receiver_id`.
    /// Valid exactly on a positive amount between distinct registered
    /// accounts with sufficient sender balance; any violation fails with
    /// the first applicable error and no state change. Never changes the
    /// supply.
    pub fn transfer(
        &mut self,
        sender_id: &String,
        receiver_id: &String,
        amount: u128,
    ) -> (r: Result<(), TokenError>)
        requires
            old(self).wf(),
        ensures
            final(self).wf(),
            match r {
                Ok(()) => {
                    &&& old(self)@.can_transfer(sender_id@, receiver_id@, amount)
                    &&& final(self)@ == old(self)@.transfer(sender_id@, receiver_id@, amount)
                    &&& final(self)@.supply == old(self)@.supply
                },
                Err(e) => {
                    &&& *final(self) == *old(self)
                    &&& transfer_error(old(self)@, sender_id@, receiver_id@, amount, e)
                },
            },
    {
        if amount == 0 {
            return Err(TokenError::ZeroAmount);
        }
        if *sender_id == *receiver_id {
            return Err(TokenError::SelfTransfer);
        }
        if !self.is_registered(sender_id) {
            return Err(TokenError::NotRegistered(sender_id.clone()));
        }
        if !self.is_registered(receiver_id) {
            return Err(TokenError::NotRegistered(receiver_id.clone()));
        }
        let bal: u128 = self.balance_of(sender_id);
        if amount > bal {
            return Err(TokenError::InsufficientBalance);
        }
        proof {
            Ledger::lemma_balance_le_supply(*self, sender_id@);
        }
        let debited = self.withdraw(sender_id, amount);
        proof {
            assert(debited is Ok);
            Ledger::lemma_balance_le_supply(*self, receiver_id@);
        }
        let credited = self.deposit(receiver_id, amount);
        proof {
            assert(credited is Ok);
        }
        Ok(())
    }

    /// The resolve step of a transfer-and-notify: the receiver reported
    /// `claimed` units unused. The refund is clamped to the amount sent and
    /// to what the receiver still holds, debited from the receiver, and
    /// credited back to the sender — or burned if the sender is no longer
    /// registered. Returns the amount actually used and the amount burned.
    pub fn resolve_transfer(
        &mut self,
        sender_id: &String,
        receiver_id: &String,
        amount: u128,
        claimed: u128,
    ) -> (r: (u128, u128))
        requires
            old(self).wf(),
        ensures
            final(self).wf(),
            ({
                let (m, used, burned) = old(self)@.resolve(
                    sender_id@,
                    receiver_id@,
                    amount,
                    claimed as nat,
                );
                final(self)@ == m && r.0 == used && r.1 == burned
            }),
    {
        let unused: u128 = if claimed <= amount {
            claimed
        } else {
            amount
        };
        let receiver_balance: u128 = self.balance_of(receiver_id);
        let refund: u128 = if unused <= receiver_balance {
            unused
        } else {
            receiver_balance
        };
        if refund == 0 {
            return (amount, 0);
        }
        let sender_still_there: bool = self.is_registered(sender_id);
        proof {
            Ledger::lemma_balance_le_supply(*self, receiver_id@);
        }
        let debited = self.withdraw(receiver_id, refund);
        proof {
            assert(debited is Ok);
        }
        if sender_still_there {
            proof {
                Ledger::lemma_balance_le_supply(*self, sender_id@);
                assert(self@.registered(sender_id@));
            }
            let credited = self.deposit(sender_id, refund);
            proof {
                assert(credited is Ok);
            }
            (amount - refund, 0)
        } else {
            (amount - refund, refund)
        }
    }
}

} // verus!
