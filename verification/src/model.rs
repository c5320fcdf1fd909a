//! The mathematical model of the ledger: a finite map from account
//! identifier (as a character sequence) to balance, together with the total
//! supply scalar. Every operation of the crate is specified as a transition
//! over this model, and the conservation law relates the supply scalar to
//! the sum of the mapped balances.

use vstd::prelude::*;

verus! {

/// The abstract ledger state. An account is registered exactly when its
/// identifier is in the domain of `balances`.
#[verifier::ext_equal]
pub struct LedgerModel {
    /// Balance of each registered account.
    pub balances: Map<Seq<char>, u128>,
    /// The total supply scalar.
    pub supply: u128,
}

/// The sum of all balances of a finite balance map.
pub open spec fn map_sum(m: Map<Seq<char>, u128>) -> int
    decreases m.dom().len(),
{
    if m.dom().finite() && m.dom().len() > 0 {
        let k = m.dom().choose();
        m[k] + map_sum(m.remove(k))
    } else {
        0
    }
}

/// Summing a nonempty map splits off any one of its entries.
pub proof fn lemma_map_sum_remove(m: Map<Seq<char>, u128>, k: Seq<char>)
    requires
        m.dom().finite(),
        m.contains_key(k),
    ensures
        map_sum(m) == m[k] + map_sum(m.remove(k)),
    decreases m.dom().len(),
{
    let c = m.dom().choose();
    if c == k {
    } else {
        lemma_map_sum_remove(m.remove(c), k);
        lemma_map_sum_remove(m.remove(k), c);
        assert(m.remove(c).remove(k) =~= m.remove(k).remove(c));
    }
}

/// Adding an entry under a fresh key adds its balance to the sum.
pub proof fn lemma_map_sum_insert(m: Map<Seq<char>, u128>, k: Seq<char>, v: u128)
    requires
        m.dom().finite(),
        !m.contains_key(k),
    ensures
        map_sum(m.insert(k, v)) == map_sum(m) + v,
{
    lemma_map_sum_remove(m.insert(k, v), k);
    assert(m.insert(k, v).remove(k) =~= m);
}

/// Overwriting an existing entry shifts the sum by the difference.
pub proof fn lemma_map_sum_update(m: Map<Seq<char>, u128>, k: Seq<char>, v: u128)
    requires
        m.dom().finite(),
        m.contains_key(k),
    ensures
        map_sum(m.insert(k, v)) == map_sum(m) - m[k] + v,
{
    lemma_map_sum_remove(m, k);
    lemma_map_sum_remove(m.insert(k, v), k);
    assert(m.insert(k, v).remove(k) =~= m.remove(k));
}

impl LedgerModel {
    /// The conservation invariant: finitely many accounts, and the supply
    /// scalar equals the sum of all registered balances. It holds of every
    /// reachable ledger state.
    pub open spec fn inv(self) -> bool {
        &&& self.balances.dom().finite()
        &&& self.supply == map_sum(self.balances)
    }

    /// Whether `a` holds a ledger entry.
    pub open spec fn registered(self, a: Seq<char>) -> bool {
        self.balances.contains_key(a)
    }

    /// The balance of `a`, taken as zero for an unregistered account.
    pub open spec fn balance_of(self, a: Seq<char>) -> u128 {
        if self.registered(a) {
            self.balances[a]
        } else {
            0
        }
    }

    /// Registration: a zero-balance entry is created if absent; registering
    /// an already registered account changes nothing.
    pub open spec fn register(self, a: Seq<char>) -> LedgerModel {
        if self.registered(a) {
            self
        } else {
            LedgerModel { balances: self.balances.insert(a, 0), supply: self.supply }
        }
    }

    /// Unregistration: the entry is removed and its remaining balance leaves
    /// the supply (a burn when the balance was positive).
    pub open spec fn unregister(self, a: Seq<char>) -> LedgerModel {
        LedgerModel {
            balances: self.balances.remove(a),
            supply: (self.supply - self.balance_of(a)) as u128,
        }
    }

    /// Whether crediting `x` to `a` is possible: the account is registered
    /// and neither its balance nor the supply would leave the representable
    /// range.
    pub open spec fn can_deposit(self, a: Seq<char>, x: u128) -> bool {
        &&& self.registered(a)
        &&& self.balance_of(a) + x <= u128::MAX
        &&& self.supply + x <= u128::MAX
    }

    /// Crediting: `x` is added to the balance of `a` and to the supply.
    pub open spec fn deposit(self, a: Seq<char>, x: u128) -> LedgerModel {
        LedgerModel {
            balances: self.balances.insert(a, (self.balance_of(a) + x) as u128),
            supply: (self.supply + x) as u128,
        }
    }

    /// Whether debiting `x` from `a` is possible: the account is registered
    /// and holds at least `x`.
    pub open spec fn can_withdraw(self, a: Seq<char>, x: u128) -> bool {
        &&& self.registered(a)
        &&& x <= self.balance_of(a)
    }

    /// Debiting: `x` is taken from the balance of `a` and from the supply.
    pub open spec fn withdraw(self, a: Seq<char>, x: u128) -> LedgerModel {
        LedgerModel {
            balances: self.balances.insert(a, (self.balance_of(a) - x) as u128),
            supply: (self.supply - x) as u128,
        }
    }

    /// Whether a transfer of `x` from `a` to `b` is valid: positive amount,
    /// distinct registered parties, sufficient balance.
    pub open spec fn can_transfer(self, a: Seq<char>, b: Seq<char>, x: u128) -> bool {
        &&& x > 0
        &&& a != b
        &&& self.registered(a)
        &&& self.registered(b)
        &&& x <= self.balance_of(a)
    }

    /// A transfer moves `x` from `a` to `b`; the debit and the credit cancel
    /// on the supply scalar.
    pub open spec fn transfer(self, a: Seq<char>, b: Seq<char>, x: u128) -> LedgerModel {
        self.withdraw(a, x).deposit(b, x)
    }

    /// Round trip: registering a fresh account `a`, crediting it `x`, and
    /// transferring the `x` on to a registered, empty account `b` leaves
    /// `a` empty, gives `b` exactly `x`, keeps the supply at its
    /// post-credit value (a transfer never changes it), and preserves the
    /// conservation invariant.
    pub proof fn lemma_register_deposit_transfer_round_trip(
        self,
        a: Seq<char>,
        b: Seq<char>,
        x: u128,
    )
        requires
            self.inv(),
            !self.registered(a),
            self.registered(b),
            self.balance_of(b) == 0,
            x > 0,
            self.supply + x <= u128::MAX,
        ensures
            ({
                let funded = self.register(a).deposit(a, x);
                let settled = funded.transfer(a, b, x);
                &&& funded.supply == self.supply + x
                &&& funded.can_transfer(a, b, x)
                &&& settled.balance_of(a) == 0
                &&& settled.balance_of(b) == x
                &&& settled.supply == funded.supply
                &&& settled.inv()
            }),
    {
        let registered_a = self.register(a);
        let funded = registered_a.deposit(a, x);
        let debited = funded.withdraw(a, x);
        let settled = debited.deposit(b, x);
        lemma_map_sum_insert(self.balances, a, 0);
        lemma_map_sum_update(registered_a.balances, a, x);
        lemma_map_sum_update(funded.balances, a, 0);
        lemma_map_sum_update(debited.balances, b, x);
        assert(settled.inv());
    }

    /// Resolution of a transfer-and-notify of `amount` from `sender` to
    /// `receiver`, where the notified receiver reported `claimed` units as
    /// unused. The refund is clamped to the amount sent and to what the
    /// receiver still holds; it returns to the sender if the sender is still
    /// registered and is burned otherwise. Yields the next ledger state, the
    /// amount actually used, and the amount burned.
    pub open spec fn resolve(
        self,
        sender: Seq<char>,
        receiver: Seq<char>,
        amount: u128,
        claimed: nat,
    ) -> (LedgerModel, u128, u128) {
        let unused: nat = if claimed <= amount as nat {
            claimed
        } else {
            amount as nat
        };
        let refund: u128 = if unused <= self.balance_of(receiver) as nat {
            unused as u128
        } else {
            self.balance_of(receiver)
        };
        if refund == 0 {
            (self, amount, 0)
        } else if self.registered(sender) {
            (self.withdraw(receiver, refund).deposit(sender, refund), (amount - refund) as u128, 0)
        } else {
            (self.withdraw(receiver, refund), (amount - refund) as u128, refund)
        }
    }
}

} // verus!
