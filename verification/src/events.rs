//! The observable log lines of the ledger: the closure record written when
//! an account is unregistered, and the burn record written when a refund
//! could not return to a vanished sender. Monitoring tooling matches these
//! lines verbatim, so their exact text is part of the contract.

use vstd::prelude::*;

use crate::digits::{decimal, decimal_string};

verus! {

/// The closure record: `Closed @<account> with <amount>`.
pub open spec fn closed_log(id: Seq<char>, amount: nat) -> Seq<char> {
    "Closed @"@ + id + " with "@ + decimal(amount)
}

/// The burn record: `Account @<account> burned <amount>`.
pub open spec fn burned_log(id: Seq<char>, amount: nat) -> Seq<char> {
    "Account @"@ + id + " burned "@ + decimal(amount)
}

/// Renders the closure record for `id` unregistered with `amount` left.
pub fn render_closed_log(id: &String, amount: u128) -> (s: String)
    ensures
        s@ == closed_log(id@, amount as nat),
{
    let mut s = "Closed @".to_owned();
    s.append(id.as_str());
    s.append(" with ");
    let num = decimal_string(amount);
    s.append(num.as_str());
    proof {
        assert(s@ =~= closed_log(id@, amount as nat));
    }
    s
}

/// Renders the burn record for `amount` burned against sender `id`.
pub fn render_burned_log(id: &String, amount: u128) -> (s: String)
    ensures
        s@ == burned_log(id@, amount as nat),
{
    let mut s = "Account @".to_owned();
    s.append(id.as_str());
    s.append(" burned ");
    let num = decimal_string(amount);
    s.append(num.as_str());
    proof {
        assert(s@ =~= burned_log(id@, amount as nat));
    }
    s
}

} // verus!
