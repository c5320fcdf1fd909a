//! Errors raised by the ledger, the storage staking manager and the transfer
//! engine. Every error aborts the operation that raised it with no state
//! change; the stable message text of each is part of the observable contract.

use vstd::prelude::*;

verus! {

/// Why an operation was rejected. Each variant is raised by exactly the
/// inputs its operation's contract names, and leaves the ledger unchanged.
#[derive(Debug, PartialEq, Eq)]
pub enum TokenError {
    /// A state-changing entry point was called without the single attached
    /// unit of native value that guards against replay and accident.
    OneYoctoRequired,
    /// A transfer-and-notify was started without enough prepaid gas to cover
    /// the notification and the resolve callback.
    InsufficientGas,
    /// A transfer of zero value.
    ZeroAmount,
    /// A transfer whose sender and receiver are the same account.
    SelfTransfer,
    /// The named account holds no ledger entry.
    NotRegistered(String),
    /// A ledger was rebuilt from a listing that names an account twice.
    AlreadyRegistered,
    /// The sender's balance is below the requested amount.
    InsufficientBalance,
    /// Crediting would push the account's balance past the largest
    /// representable value.
    BalanceOverflow,
    /// Crediting would push the total supply past the largest representable
    /// value.
    TotalSupplyOverflow,
    /// The attached value does not cover the storage stake of one entry.
    InsufficientDeposit,
    /// Unregistering an account that still holds value, without force.
    PositiveBalance,
    /// Withdrawing a positive amount of storage stake, of which none is ever
    /// available.
    ExceedsAvailable,
}

impl TokenError {
    /// The stable message text of this error.
    pub open spec fn spec_message(self) -> Seq<char> {
        match self {
            TokenError::OneYoctoRequired => "Requires attached deposit of exactly 1 yoctoNEAR"@,
            TokenError::InsufficientGas => "More gas is required"@,
            TokenError::ZeroAmount => "The amount should be a positive number"@,
            TokenError::SelfTransfer => "Sender and receiver should be different"@,
            TokenError::NotRegistered(a) => "The account "@ + a@ + " is not registered"@,
            TokenError::AlreadyRegistered => "The account is already registered"@,
            TokenError::InsufficientBalance => "The account doesn't have enough balance"@,
            TokenError::BalanceOverflow => "Balance overflow"@,
            TokenError::TotalSupplyOverflow => "Total supply overflow"@,
            TokenError::InsufficientDeposit => (
            "The attached deposit is less than the minimum storage balance"@),
            TokenError::PositiveBalance => (
            "Can't unregister the account with the positive balance without force"@),
            TokenError::ExceedsAvailable => (
            "The amount is greater than the available storage balance"@),
        }
    }

    /// Renders the stable message text.
    pub fn message(&self) -> (s: String)
        ensures
            s@ == self.spec_message(),
    {
        match self {
            TokenError::OneYoctoRequired => "Requires attached deposit of exactly 1 yoctoNEAR"
                .to_owned(),
            TokenError::InsufficientGas => "More gas is required".to_owned(),
            TokenError::ZeroAmount => "The amount should be a positive number".to_owned(),
            TokenError::SelfTransfer => "Sender and receiver should be different".to_owned(),
            TokenError::NotRegistered(a) => {
                let mut s = "The account ".to_owned();
                s.append(a.as_str());
                s.append(" is not registered");
                proof {
                    assert(s@ =~= self.spec_message());
                }
                s
            },
            TokenError::AlreadyRegistered => "The account is already registered".to_owned(),
            TokenError::InsufficientBalance => "The account doesn't have enough balance"
                .to_owned(),
            TokenError::BalanceOverflow => "Balance overflow".to_owned(),
            TokenError::TotalSupplyOverflow => "Total supply overflow".to_owned(),
            TokenError::InsufficientDeposit => {
                "The attached deposit is less than the minimum storage balance".to_owned()
            },
            TokenError::PositiveBalance => {
                "Can't unregister the account with the positive balance without force".to_owned()
            },
            TokenError::ExceedsAvailable => {
                "The amount is greater than the available storage balance".to_owned()
            },
        }
    }
}

} // verus!
