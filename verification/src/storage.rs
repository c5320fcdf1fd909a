//! The storage staking manager: registration in the ledger is backed by a
//! fixed, pre-paid stake covering the cost of one account entry. The stake
//! bounds are fixed with `min == max`, so an entry is always exactly funded
//! and nothing is ever available for withdrawal. Unregistration of a funded
//! account is refused unless forced, and a forced removal burns the balance.

use vstd::prelude::*;

use crate::error::TokenError;
use crate::ledger::Ledger;

verus! {

/// The stake backing one account entry: `total` paid in, of which
/// `available` could still be withdrawn (always zero: entries never grow).
#[derive(Clone, Copy, PartialEq, Eq, Structural, Debug)]
pub struct StorageBalance {
    pub total: u128,
    pub available: u128,
}

/// The cost bounds of staking one entry; `min == max` in this design.
#[derive(Clone, Copy, PartialEq, Eq, Structural, Debug)]
pub struct StorageBalanceBounds {
    pub min: u128,
    pub max: u128,
}

impl Ledger {
    /// Stakes storage for `account_id` (the caller `predecessor` if absent)
    /// out of the `attached` value, at `cost` per entry. On an already
    /// registered target nothing changes and the whole attached value is
    /// refunded; otherwise the target is registered and the excess over
    /// `cost` is refunded, or the call fails with the full attached value
    /// owed back. `registration_only` documents intent and, with fixed
    /// bounds, changes nothing. Returns the stake report and the refund.
    pub fn storage_deposit(
        &mut self,
        cost: u128,
        account_id: Option<&String>,
        predecessor: &String,
        attached: u128,
        registration_only: Option<bool>,
    ) -> (r: Result<(StorageBalance, u128), TokenError>)
        requires
            old(self).wf(),
        ensures
            final(self).wf(),
            ({
                let target = match account_id {
                    Some(a) => a@,
                    None => predecessor@,
                };
                match r {
                    Ok((sb, refund)) => {
                        &&& sb.total == cost
                        &&& sb.available == 0
                        &&& if old(self)@.registered(target) {
                            refund == attached && *final(self) == *old(self)
                        } else {
                            &&& attached >= cost
                            &&& refund == attached - cost
                            &&& final(self)@ == old(self)@.register(target)
                        }
                    },
                    Err(e) => {
                        &&& *final(self) == *old(self)
                        &&& e == TokenError::InsufficientDeposit
                        &&& !old(self)@.registered(target)
                        &&& attached < cost
                    },
                }
            }),
    {
        let target: &String = match account_id {
            Some(a) => a,
            None => predecessor,
        };
        if self.is_registered(target) {
            Ok((StorageBalance { total: cost, available: 0 }, attached))
        } else if attached >= cost {
            self.register(target);
            Ok((StorageBalance { total: cost, available: 0 }, attached - cost))
        } else {
            Err(TokenError::InsufficientDeposit)
        }
    }

    /// Reports the stake of the caller, of which nothing is ever available;
    /// a positive `amount` therefore always exceeds what can be withdrawn.
    /// Guarded by the single attached unit; never changes state.
    pub fn storage_withdraw(
        &self,
        cost: u128,
        predecessor: &String,
        attached: u128,
        amount: Option<u128>,
    ) -> (r: Result<StorageBalance, TokenError>)
        requires
            self.wf(),
        ensures
            match r {
                Ok(sb) => {
                    &&& attached == 1
                    &&& self@.registered(predecessor@)
                    &&& (amount is None || amount == Some(0u128))
                    &&& sb.total == cost
                    &&& sb.available == 0
                },
                Err(e) => match e {
                    TokenError::OneYoctoRequired => attached != 1,
                    TokenError::NotRegistered(a) => {
                        &&& attached == 1
                        &&& a@ == predecessor@
                        &&& !self@.registered(predecessor@)
                    },
                    TokenError::ExceedsAvailable => {
                        &&& attached == 1
                        &&& self@.registered(predecessor@)
                        &&& (match amount {
                            Some(x) => x > 0,
                            None => false,
                        })
                    },
                    _ => false,
                },
            },
    {
        if attached != 1 {
            return Err(TokenError::OneYoctoRequired);
        }
        if !self.is_registered(predecessor) {
            return Err(TokenError::NotRegistered(predecessor.clone()));
        }
        match amount {
            Some(x) => {
                if x > 0 {
                    Err(TokenError::ExceedsAvailable)
                } else {
                    Ok(StorageBalance { total: cost, available: 0 })
                }
            },
            None => Ok(StorageBalance { total: cost, available: 0 }),
        }
    }

    /// Unregisters the caller. Returns the removed entry's prior balance,
    /// or `None` if the caller held no entry. A funded entry is only
    /// removed under force, and its balance then leaves the supply.
    /// Guarded by the single attached unit.
    pub fn storage_unregister(
        &mut self,
        predecessor: &String,
        attached: u128,
        force: Option<bool>,
    ) -> (r: Result<Option<u128>, TokenError>)
        requires
            old(self).wf(),
        ensures
            final(self).wf(),
            match r {
                Ok(Some(b)) => {
                    &&& attached == 1
                    &&& old(self)@.registered(predecessor@)
                    &&& (old(self)@.balance_of(predecessor@) == 0 || force == Some(true))
                    &&& b == old(self)@.balance_of(predecessor@)
                    &&& final(self)@ == old(self)@.unregister(predecessor@)
                },
                Ok(None) => {
                    &&& attached == 1
                    &&& !old(self)@.registered(predecessor@)
                    &&& *final(self) == *old(self)
                },
                Err(e) => *final(self) == *old(self) && match e {
                    TokenError::OneYoctoRequired => attached != 1,
                    TokenError::PositiveBalance => {
                        &&& attached == 1
                        &&& old(self)@.registered(predecessor@)
                        &&& old(self)@.balance_of(predecessor@) > 0
                        &&& force != Some(true)
                    },
                    _ => false,
                },
            },
    {
        if attached != 1 {
            return Err(TokenError::OneYoctoRequired);
        }
        let force_flag: bool = match force {
            Some(f) => f,
            None => false,
        };
        if !self.is_registered(predecessor) {
            return Ok(None);
        }
        let bal: u128 = self.balance_of(predecessor);
        if bal == 0 || force_flag {
            match self.unregister(predecessor) {
                Some(b) => Ok(Some(b)),
                None => {
                    proof {
                        assert(false);
                    }
                    Ok(None)
                },
            }
        } else {
            Err(TokenError::PositiveBalance)
        }
    }

    /// Reports the stake backing `account_id`: the fixed cost, nothing
    /// available, and `None` for an unregistered account.
    pub fn storage_balance_of(&self, cost: u128, account_id: &String) -> (r: Option<
        StorageBalance,
    >)
        requires
            self.wf(),
        ensures
            match r {
                Some(sb) => {
                    &&& self@.registered(account_id@)
                    &&& sb.total == cost
                    &&& sb.available == 0
                },
                None => !self@.registered(account_id@),
            },
    {
        if self.is_registered(account_id) {
            Some(StorageBalance { total: cost, available: 0 })
        } else {
            None
        }
    }
}

} // verus!
