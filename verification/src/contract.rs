//! The contract surface: the balance ledger under the storage staking
//! policy, plus the token's static metadata. Every entry point takes the
//! values the host would supply — the caller's identity, the attached
//! native value, the prepaid gas, the notification outcome — as plain
//! arguments, and returns what the host must do next.

use vstd::prelude::*;

use crate::digits::parse_u128;
use crate::error::TokenError;
use crate::events::{burned_log, closed_log, render_burned_log, render_closed_log};
use crate::ledger::{pairs_sum, Ledger};
use crate::metadata::TokenMetadata;
use crate::model::{LedgerModel, map_sum};
use crate::storage::{StorageBalance, StorageBalanceBounds};
use crate::transfer::{claimed_unused, transfer_error, NotifyOutcome, PendingTransfer};

verus! {

/// The least prepaid gas a transfer-and-notify must exceed, to cover the
/// notification stage and the resolve callback after it.
pub const MIN_TRANSFER_CALL_GAS: u64 = 30_000_000_000_000;

/// The fungible-token contract state.
pub struct Contract {
    ledger: Ledger,
    storage_cost: u128,
    metadata: TokenMetadata,
}

impl View for Contract {
    type V = LedgerModel;

    closed spec fn view(&self) -> LedgerModel {
        self.ledger@
    }
}

impl Contract {
    /// Well-formedness: a well-formed ledger and valid metadata. Every
    /// entry point preserves it.
    pub closed spec fn wf(self) -> bool {
        &&& self.ledger.wf()
        &&& self.metadata.valid()
    }

    /// The fixed storage cost of one account entry.
    pub closed spec fn spec_storage_cost(self) -> u128 {
        self.storage_cost
    }

    /// The token's static metadata.
    pub closed spec fn spec_metadata(self) -> TokenMetadata {
        self.metadata
    }

    /// Conservation: in every reachable contract state the total supply
    /// equals the sum of all registered balances.
    pub proof fn lemma_supply_conservation(self)
        requires
            self.wf(),
        ensures
            self@.inv(),
            self@.supply == map_sum(self@.balances),
    {
        self.ledger.lemma_supply_conservation();
    }

    /// Initializes the token: the whole `total_supply` is minted to the
    /// registered `owner_id`, under the given metadata and per-entry
    /// storage cost.
    pub fn new(
        owner_id: String,
        total_supply: u128,
        metadata: TokenMetadata,
        storage_cost: u128,
    ) -> (c: Contract)
        requires
            metadata.valid(),
        ensures
            c.wf(),
            c@.supply == total_supply,
            c@.balances == Map::<Seq<char>, u128>::empty().insert(owner_id@, total_supply),
            c.spec_storage_cost() == storage_cost,
            c.spec_metadata() == metadata,
    {
        let mut ledger = Ledger::new();
        ledger.register(&owner_id);
        let minted = ledger.deposit(&owner_id, total_supply);
        proof {
            assert(minted is Ok);
            assert(ledger@.balances =~= Map::<Seq<char>, u128>::empty().insert(
                owner_id@,
                total_supply,
            ));
        }
        Contract { ledger, storage_cost, metadata }
    }

    /// Rebuilds the contract from a persisted listing of accounts and
    /// balances, as [`Contract::accounts`] produced it; see
    /// [`Ledger::from_accounts`] for the listing's meaning. The supply is
    /// the listed balances' sum, restoring conservation by construction.
    pub fn from_accounts(
        list: &Vec<(String, u128)>,
        metadata: TokenMetadata,
        storage_cost: u128,
    ) -> (r: Result<Contract, TokenError>)
        requires
            metadata.valid(),
        ensures
            match r {
                Ok(c) => {
                    &&& c.wf()
                    &&& c.spec_storage_cost() == storage_cost
                    &&& c.spec_metadata() == metadata
                    &&& pairs_sum(list@) <= u128::MAX
                    &&& c@.supply == pairs_sum(list@)
                    &&& forall|i: int, j: int|
                        #![trigger list@[i], list@[j]]
                        0 <= i < j < list@.len() ==> list@[i].0@ != list@[j].0@
                    &&& forall|i: int|
                        0 <= i < list@.len() ==> {
                            &&& c@.registered((#[trigger] list@[i]).0@)
                            &&& c@.balance_of(list@[i].0@) == list@[i].1
                        }
                    &&& forall|k: Seq<char>|
                        #[trigger] c@.registered(k) ==> exists|i: int|
                            0 <= i < list@.len() && (#[trigger] list@[i]).0@ == k
                },
                Err(e) => match e {
                    TokenError::AlreadyRegistered => exists|i: int, j: int|
                        #![trigger list@[i], list@[j]]
                        0 <= i < j < list@.len() && list@[i].0@ == list@[j].0@,
                    TokenError::TotalSupplyOverflow => pairs_sum(list@) > u128::MAX,
                    _ => false,
                },
            },
    {
        match Ledger::from_accounts(list) {
            Ok(ledger) => Ok(Contract { ledger, storage_cost, metadata }),
            Err(e) => Err(e),
        }
    }

    /// Lists every registered account with its balance, for persistence;
    /// see [`Ledger::accounts`].
    pub fn accounts(&self) -> (v: Vec<(String, u128)>)
        requires
            self.wf(),
        ensures
            forall|i: int|
                0 <= i < v@.len() ==> {
                    &&& self@.registered((#[trigger] v@[i]).0@)
                    &&& self@.balance_of(v@[i].0@) == v@[i].1
                },
            forall|i: int, j: int|
                #![trigger v@[i], v@[j]]
                0 <= i < j < v@.len() ==> v@[i].0@ != v@[j].0@,
            forall|k: Seq<char>|
                #[trigger] self@.registered(k) ==> exists|i: int|
                    0 <= i < v@.len() && (#[trigger] v@[i]).0@ == k,
    {
        self.ledger.accounts()
    }

    /// The total supply scalar.
    pub fn ft_total_supply(&self) -> (r: u128)
        ensures
            r == self@.supply,
    {
        self.ledger.total_supply()
    }

    /// The balance of `account_id`; zero if unregistered.
    pub fn ft_balance_of(&self, account_id: &String) -> (r: u128)
        requires
            self.wf(),
        ensures
            r == self@.balance_of(account_id@),
    {
        self.ledger.balance_of(account_id)
    }

    /// The token's static metadata, as an observably equal copy.
    pub fn ft_metadata(&self) -> (r: TokenMetadata)
        ensures
            r.equiv(self.spec_metadata()),
    {
        self.metadata.duplicate()
    }

    /// A simple transfer from the caller `sender_id` to `receiver_id`,
    /// guarded by exactly one attached unit of native value. The `memo` is
    /// free-form and changes nothing. Fails, changing nothing, on a missing
    /// guard or any invalid transfer; never changes the supply.
    pub fn ft_transfer(
        &mut self,
        sender_id: &String,
        receiver_id: &String,
        amount: u128,
        memo: Option<String>,
        attached: u128,
    ) -> (r: Result<(), TokenError>)
        requires
            old(self).wf(),
        ensures
            final(self).wf(),
            final(self).spec_storage_cost() == old(self).spec_storage_cost(),
            final(self).spec_metadata() == old(self).spec_metadata(),
            match r {
                Ok(()) => {
                    &&& attached == 1
                    &&& old(self)@.can_transfer(sender_id@, receiver_id@, amount)
                    &&& final(self)@ == old(self)@.transfer(sender_id@, receiver_id@, amount)
                    &&& final(self)@.supply == old(self)@.supply
                },
                Err(e) => {
                    &&& *final(self) == *old(self)
                    &&& if attached != 1 {
                        e == TokenError::OneYoctoRequired
                    } else {
                        transfer_error(old(self)@, sender_id@, receiver_id@, amount, e)
                    }
                },
            },
    {
        if attached != 1 {
            return Err(TokenError::OneYoctoRequired);
        }
        self.ledger.transfer(sender_id, receiver_id, amount)
    }

    /// Starts a transfer-and-notify: after the gas and attached-value
    /// guards, the transfer commits optimistically and the returned pending
    /// call tells the host to notify the receiver with `msg` and then
    /// deliver the outcome to [`Contract::ft_resolve_transfer`].
    pub fn ft_transfer_call(
        &mut self,
        sender_id: &String,
        receiver_id: &String,
        amount: u128,
        memo: Option<String>,
        msg: String,
        attached: u128,
        prepaid_gas: u64,
    ) -> (r: Result<PendingTransfer, TokenError>)
        requires
            old(self).wf(),
        ensures
            final(self).wf(),
            final(self).spec_storage_cost() == old(self).spec_storage_cost(),
            final(self).spec_metadata() == old(self).spec_metadata(),
            match r {
                Ok(p) => {
                    &&& prepaid_gas > MIN_TRANSFER_CALL_GAS
                    &&& attached == 1
                    &&& old(self)@.can_transfer(sender_id@, receiver_id@, amount)
                    &&& final(self)@ == old(self)@.transfer(sender_id@, receiver_id@, amount)
                    &&& final(self)@.supply == old(self)@.supply
                    &&& p.sender_id@ == sender_id@
                    &&& p.receiver_id@ == receiver_id@
                    &&& p.amount == amount
                    &&& p.msg@ == msg@
                },
                Err(e) => {
                    &&& *final(self) == *old(self)
                    &&& if prepaid_gas <= MIN_TRANSFER_CALL_GAS {
                        e == TokenError::InsufficientGas
                    } else if attached != 1 {
                        e == TokenError::OneYoctoRequired
                    } else {
                        transfer_error(old(self)@, sender_id@, receiver_id@, amount, e)
                    }
                },
            },
    {
        if prepaid_gas <= MIN_TRANSFER_CALL_GAS {
            return Err(TokenError::InsufficientGas);
        }
        if attached != 1 {
            return Err(TokenError::OneYoctoRequired);
        }
        match self.ledger.transfer(sender_id, receiver_id, amount) {
            Err(e) => Err(e),
            Ok(()) => Ok(
                PendingTransfer {
                    sender_id: sender_id.clone(),
                    receiver_id: receiver_id.clone(),
                    amount,
                    msg,
                },
            ),
        }
    }

    /// The resolve callback of a transfer-and-notify, host-invoked exactly
    /// once with the notification's outcome. Returns the amount actually
    /// used and, when a refund had to be burned against a vanished sender,
    /// the verbatim burn log line to emit.
    pub fn ft_resolve_transfer(
        &mut self,
        sender_id: &String,
        receiver_id: &String,
        amount: u128,
        outcome: NotifyOutcome,
    ) -> (r: (u128, Option<String>))
        requires
            old(self).wf(),
        ensures
            final(self).wf(),
            final(self).spec_storage_cost() == old(self).spec_storage_cost(),
            final(self).spec_metadata() == old(self).spec_metadata(),
            ({
                let (m, used, burned) = old(self)@.resolve(
                    sender_id@,
                    receiver_id@,
                    amount,
                    claimed_unused(outcome, amount),
                );
                &&& final(self)@ == m
                &&& r.0 == used
                &&& match r.1 {
                    Some(log) => burned > 0 && log@ == burned_log(sender_id@, burned as nat),
                    None => burned == 0,
                }
            }),
    {
        let claimed: u128 = match &outcome {
            NotifyOutcome::Failed => amount,
            NotifyOutcome::Returned(s) => match parse_u128(s.as_str()) {
                Some(v) => if v <= amount {
                    v
                } else {
                    amount
                },
                None => amount,
            },
        };
        proof {
            assert(claimed as nat == claimed_unused(outcome, amount));
        }
        let (used, burned) = self.ledger.resolve_transfer(sender_id, receiver_id, amount, claimed);
        if burned > 0 {
            (used, Some(render_burned_log(sender_id, burned)))
        } else {
            (used, None)
        }
    }

    /// Stakes storage for `account_id` (the caller if absent) out of the
    /// attached value; see [`Ledger::storage_deposit`]. On an already
    /// registered target nothing changes and the whole attached value is
    /// refunded. Returns the stake report and the refund owed to the
    /// caller.
    pub fn storage_deposit(
        &mut self,
        account_id: Option<&String>,
        predecessor: &String,
        attached: u128,
        registration_only: Option<bool>,
    ) -> (r: Result<(StorageBalance, u128), TokenError>)
        requires
            old(self).wf(),
        ensures
            final(self).wf(),
            final(self).spec_storage_cost() == old(self).spec_storage_cost(),
            final(self).spec_metadata() == old(self).spec_metadata(),
            ({
                let target = match account_id {
                    Some(a) => a@,
                    None => predecessor@,
                };
                let cost = old(self).spec_storage_cost();
                match r {
                    Ok((sb, refund)) => {
                        &&& sb.total == cost
                        &&& sb.available == 0
                        &&& if old(self)@.registered(target) {
                            refund == attached && *final(self) == *old(self)
                        } else {
                            &&& attached >= cost
                            &&& refund == attached - cost
                            &&& final(self)@ == old(self)@.register(target)
                        }
                    },
                    Err(e) => {
                        &&& *final(self) == *old(self)
                        &&& e == TokenError::InsufficientDeposit
                        &&& !old(self)@.registered(target)
                        &&& attached < cost
                    },
                }
            }),
    {
        self.ledger.storage_deposit(
            self.storage_cost,
            account_id,
            predecessor,
            attached,
            registration_only,
        )
    }

    /// Reports the caller's stake, of which nothing is ever available; see
    /// [`Ledger::storage_withdraw`]. Never changes state.
    pub fn storage_withdraw(
        &self,
        predecessor: &String,
        attached: u128,
        amount: Option<u128>,
    ) -> (r: Result<StorageBalance, TokenError>)
        requires
            self.wf(),
        ensures
            match r {
                Ok(sb) => {
                    &&& attached == 1
                    &&& self@.registered(predecessor@)
                    &&& (amount is None || amount == Some(0u128))
                    &&& sb.total == self.spec_storage_cost()
                    &&& sb.available == 0
                },
                Err(e) => match e {
                    TokenError::OneYoctoRequired => attached != 1,
                    TokenError::NotRegistered(a) => {
                        &&& attached == 1
                        &&& a@ == predecessor@
                        &&& !self@.registered(predecessor@)
                    },
                    TokenError::ExceedsAvailable => {
                        &&& attached == 1
                        &&& self@.registered(predecessor@)
                        &&& (match amount {
                            Some(x) => x > 0,
                            None => false,
                        })
                    },
                    _ => false,
                },
            },
    {
        self.ledger.storage_withdraw(self.storage_cost, predecessor, attached, amount)
    }

    /// Unregisters the caller; see [`Ledger::storage_unregister`]. On
    /// removal, returns `true` together with the verbatim closure log line
    /// carrying the burned balance; `false` if the caller held no entry.
    pub fn storage_unregister(
        &mut self,
        predecessor: &String,
        attached: u128,
        force: Option<bool>,
    ) -> (r: Result<(bool, Option<String>), TokenError>)
        requires
            old(self).wf(),
        ensures
            final(self).wf(),
            final(self).spec_storage_cost() == old(self).spec_storage_cost(),
            final(self).spec_metadata() == old(self).spec_metadata(),
            match r {
                Ok((removed, log)) => {
                    &&& attached == 1
                    &&& if removed {
                        &&& old(self)@.registered(predecessor@)
                        &&& (old(self)@.balance_of(predecessor@) == 0 || force == Some(true))
                        &&& final(self)@ == old(self)@.unregister(predecessor@)
                        &&& match log {
                            Some(l) => l@ == closed_log(
                                predecessor@,
                                old(self)@.balance_of(predecessor@) as nat,
                            ),
                            None => false,
                        }
                    } else {
                        &&& !old(self)@.registered(predecessor@)
                        &&& *final(self) == *old(self)
                        &&& log is None
                    }
                },
                Err(e) => *final(self) == *old(self) && match e {
                    TokenError::OneYoctoRequired => attached != 1,
                    TokenError::PositiveBalance => {
                        &&& attached == 1
                        &&& old(self)@.registered(predecessor@)
                        &&& old(self)@.balance_of(predecessor@) > 0
                        &&& force != Some(true)
                    },
                    _ => false,
                },
            },
    {
        match self.ledger.storage_unregister(predecessor, attached, force) {
            Ok(Some(balance)) => Ok((true, Some(render_closed_log(predecessor, balance)))),
            Ok(None) => Ok((false, None)),
            Err(e) => Err(e),
        }
    }

    /// The fixed stake bounds of one entry; `min == max` always.
    pub fn storage_balance_bounds(&self) -> (b: StorageBalanceBounds)
        ensures
            b.min == self.spec_storage_cost(),
            b.max == self.spec_storage_cost(),
    {
        StorageBalanceBounds { min: self.storage_cost, max: self.storage_cost }
    }

    /// The stake backing `account_id`, or `None` if unregistered.
    pub fn storage_balance_of(&self, account_id: &String) -> (r: Option<StorageBalance>)
        requires
            self.wf(),
        ensures
            match r {
                Some(sb) => {
                    &&& self@.registered(account_id@)
                    &&& sb.total == self.spec_storage_cost()
                    &&& sb.available == 0
                },
                None => !self@.registered(account_id@),
            },
    {
        self.ledger.storage_balance_of(self.storage_cost, account_id)
    }
}

} // verus!
