//! The balance ledger: the registered accounts with their balances and the
//! total supply scalar, stored as a vector of entries with pairwise distinct
//! identifiers. Its abstract value is a [`LedgerModel`]; every primitive is
//! specified as a model transition and preserves the well-formedness that
//! backs the conservation law.

use vstd::prelude::*;

use crate::error::TokenError;
use crate::model::{
    LedgerModel, lemma_map_sum_insert, map_sum,
};

verus! {

/// One registered account: its identifier and its balance.
struct AccountEntry {
    id: String,
    balance: u128,
}

/// Pairwise distinct identifiers.
spec fn uniq_keys(s: Seq<AccountEntry>) -> bool {
    forall|i: int, j: int|
        #![trigger s[i], s[j]]
        0 <= i < j < s.len() ==> s[i].id@ != s[j].id@
}

/// The balance map held by a sequence of entries (later entries shadow
/// earlier ones; under `uniq_keys` there is nothing to shadow).
spec fn map_of(s: Seq<AccountEntry>) -> Map<Seq<char>, u128>
    decreases s.len(),
{
    if s.len() == 0 {
        Map::empty()
    } else {
        map_of(s.drop_last()).insert(s.last().id@, s.last().balance)
    }
}

/// The sum of all balances of a sequence of entries.
spec fn sum_of(s: Seq<AccountEntry>) -> int
    decreases s.len(),
{
    if s.len() == 0 {
        0
    } else {
        sum_of(s.drop_last()) + s.last().balance
    }
}

proof fn lemma_map_of_finite(s: Seq<AccountEntry>)
    ensures
        map_of(s).dom().finite(),
    decreases s.len(),
{
    if s.len() > 0 {
        lemma_map_of_finite(s.drop_last());
    }
}

/// A key is mapped exactly when some entry carries it.
proof fn lemma_map_of_contains(s: Seq<AccountEntry>, k: Seq<char>)
    ensures
        map_of(s).contains_key(k) <==> exists|i: int|
            0 <= i < s.len() && (#[trigger] s[i]).id@ == k,
    decreases s.len(),
{
    if s.len() > 0 {
        lemma_map_of_contains(s.drop_last(), k);
        assert(forall|i: int| 0 <= i < s.len() - 1 ==> s.drop_last()[i] == s[i]);
        if s.last().id@ == k {
            assert((s[s.len() - 1]).id@ == k);
        } else {
            if exists|i: int| 0 <= i < s.len() && (#[trigger] s[i]).id@ == k {
                let i = choose|i: int| 0 <= i < s.len() && (#[trigger] s[i]).id@ == k;
                assert(s.drop_last()[i].id@ == k);
            }
        }
    }
}

/// Under distinct keys, the entry at `i` gives the mapped balance of its key.
proof fn lemma_map_of_index(s: Seq<AccountEntry>, i: int)
    requires
        uniq_keys(s),
        0 <= i < s.len(),
    ensures
        map_of(s).contains_key(s[i].id@),
        map_of(s)[s[i].id@] == s[i].balance,
    decreases s.len(),
{
    if i == s.len() - 1 {
    } else {
        lemma_map_of_index(s.drop_last(), i);
        assert(s.drop_last()[i] == s[i]);
    }
}

/// Replacing the entry at `i` under its own key updates the map pointwise.
proof fn lemma_map_of_update(s: Seq<AccountEntry>, i: int, e: AccountEntry)
    requires
        uniq_keys(s),
        0 <= i < s.len(),
        e.id@ == s[i].id@,
    ensures
        uniq_keys(s.update(i, e)),
        map_of(s.update(i, e)) == map_of(s).insert(e.id@, e.balance),
        sum_of(s.update(i, e)) == sum_of(s) - s[i].balance + e.balance,
    decreases s.len(),
{
    let t = s.update(i, e);
    assert(forall|j: int| 0 <= j < s.len() && j != i ==> t[j] == s[j]);
    if i == s.len() - 1 {
        assert(t.drop_last() =~= s.drop_last());
        assert(map_of(t) =~= map_of(s).insert(e.id@, e.balance));
    } else {
        assert(t.drop_last() =~= s.drop_last().update(i, e));
        lemma_map_of_update(s.drop_last(), i, e);
        assert(s.drop_last()[i] == s[i]);
        assert(t.last() == s.last());
        assert(s.last().id@ != e.id@);
        assert(map_of(t) =~= map_of(s).insert(e.id@, e.balance));
    }
}

/// Appending an entry under a fresh key extends the map and the sum.
proof fn lemma_map_of_push(s: Seq<AccountEntry>, e: AccountEntry)
    requires
        uniq_keys(s),
        !map_of(s).contains_key(e.id@),
    ensures
        uniq_keys(s.push(e)),
        map_of(s.push(e)) == map_of(s).insert(e.id@, e.balance),
        sum_of(s.push(e)) == sum_of(s) + e.balance,
{
    lemma_map_of_contains(s, e.id@);
    let t = s.push(e);
    assert(t.drop_last() =~= s);
    assert(forall|i: int| 0 <= i < s.len() ==> t[i] == s[i]);
    assert(uniq_keys(t)) by {
        assert(forall|i: int| 0 <= i < s.len() ==> (#[trigger] s[i]).id@ != e.id@);
    }
}

/// Removing the entry at `i` removes exactly its key from the map.
proof fn lemma_map_of_remove(s: Seq<AccountEntry>, i: int)
    requires
        uniq_keys(s),
        0 <= i < s.len(),
    ensures
        uniq_keys(s.remove(i)),
        map_of(s.remove(i)) == map_of(s).remove(s[i].id@),
        sum_of(s.remove(i)) == sum_of(s) - s[i].balance,
    decreases s.len(),
{
    let t = s.remove(i);
    assert(forall|j: int| 0 <= j < i ==> t[j] == s[j]);
    assert(forall|j: int| i <= j < t.len() ==> t[j] == s[j + 1]);
    if i == s.len() - 1 {
        assert(t =~= s.drop_last());
        lemma_map_of_contains(s.drop_last(), s[i].id@);
        assert(forall|j: int|
            0 <= j < s.len() - 1 ==> (#[trigger] s.drop_last()[j]).id@ != s[i].id@);
        assert(map_of(t) =~= map_of(s).remove(s[i].id@));
    } else {
        assert(t.drop_last() =~= s.drop_last().remove(i));
        lemma_map_of_remove(s.drop_last(), i);
        assert(s.drop_last()[i] == s[i]);
        assert(t.last() == s.last());
        assert(s.last().id@ != s[i].id@);
        assert(map_of(t) =~= map_of(s).remove(s[i].id@));
    }
}

proof fn lemma_sum_nonneg(s: Seq<AccountEntry>)
    ensures
        sum_of(s) >= 0,
    decreases s.len(),
{
    if s.len() > 0 {
        lemma_sum_nonneg(s.drop_last());
    }
}

/// No single balance exceeds the sum of all balances.
proof fn lemma_sum_element(s: Seq<AccountEntry>, i: int)
    requires
        0 <= i < s.len(),
    ensures
        s[i].balance <= sum_of(s),
    decreases s.len(),
{
    if i == s.len() - 1 {
        lemma_sum_nonneg(s.drop_last());
    } else {
        lemma_sum_element(s.drop_last(), i);
        assert(s.drop_last()[i] == s[i]);
    }
}

/// Under distinct keys, the sum over the entries is the sum over the map.
proof fn lemma_sum_is_map_sum(s: Seq<AccountEntry>)
    requires
        uniq_keys(s),
    ensures
        map_sum(map_of(s)) == sum_of(s),
    decreases s.len(),
{
    if s.len() > 0 {
        let d = s.drop_last();
        assert(uniq_keys(d)) by {
            assert(forall|i: int| 0 <= i < d.len() ==> d[i] == s[i]);
        }
        lemma_sum_is_map_sum(d);
        lemma_map_of_finite(d);
        lemma_map_of_contains(d, s.last().id@);
        assert(forall|i: int| 0 <= i < d.len() ==> (#[trigger] d[i]).id@ != s.last().id@) by {
            assert(forall|i: int| 0 <= i < d.len() ==> d[i] == s[i]);
        }
        lemma_map_sum_insert(map_of(d), s.last().id@, s.last().balance);
    }
}

/// The sum of the balances of a listing of accounts and balances.
pub open spec fn pairs_sum(s: Seq<(String, u128)>) -> int
    decreases s.len(),
{
    if s.len() == 0 {
        0
    } else {
        pairs_sum(s.drop_last()) + s.last().1
    }
}

/// Each prefix of a listing sums to at most the whole listing.
proof fn lemma_pairs_sum_prefix_le(s: Seq<(String, u128)>, i: int)
    requires
        0 <= i <= s.len(),
    ensures
        pairs_sum(s.subrange(0, i)) <= pairs_sum(s),
    decreases s.len() - i,
{
    if i < s.len() {
        let t = s.subrange(0, i + 1);
        assert(t.drop_last() =~= s.subrange(0, i));
        lemma_pairs_sum_prefix_le(s, i + 1);
        assert(s.subrange(0, s.len() as int) =~= s);
    } else {
        assert(s.subrange(0, i) =~= s);
    }
}

/// The balance ledger. All primitives preserve `wf`, which carries the
/// conservation law: the supply scalar equals the sum of all balances.
pub struct Ledger {
    entries: Vec<AccountEntry>,
    supply: u128,
}

impl View for Ledger {
    type V = LedgerModel;

    closed spec fn view(&self) -> LedgerModel {
        LedgerModel { balances: map_of(self.entries@), supply: self.supply }
    }
}

impl Ledger {
    /// Well-formedness: distinct account identifiers, and a supply scalar
    /// equal to the sum of all balances.
    pub closed spec fn wf(self) -> bool {
        &&& uniq_keys(self.entries@)
        &&& self.supply as int == sum_of(self.entries@)
    }

    /// Conservation: every well-formed ledger satisfies the model invariant,
    /// so its total supply is exactly the sum of all registered balances.
    pub proof fn lemma_supply_conservation(self)
        requires
            self.wf(),
        ensures
            self@.inv(),
            self@.supply == map_sum(self@.balances),
    {
        lemma_map_of_finite(self.entries@);
        lemma_sum_is_map_sum(self.entries@);
    }

    /// No account ever holds more than the total supply.
    pub proof fn lemma_balance_le_supply(self, a: Seq<char>)
        requires
            self.wf(),
        ensures
            self@.balance_of(a) <= self@.supply,
    {
        if self@.registered(a) {
            lemma_map_of_contains(self.entries@, a);
            let i = choose|i: int|
                0 <= i < self.entries@.len() && (#[trigger] self.entries@[i]).id@ == a;
            lemma_map_of_index(self.entries@, i);
            lemma_sum_element(self.entries@, i);
        }
    }

    /// An empty ledger: no accounts, zero supply.
    pub fn new() -> (l: Ledger)
        ensures
            l.wf(),
            l@.balances == Map::<Seq<char>, u128>::empty(),
            l@.supply == 0,
    {
        let l = Ledger { entries: Vec::new(), supply: 0 };
        proof {
            assert(map_of(l.entries@) =~= Map::<Seq<char>, u128>::empty());
        }
        l
    }

    /// The position of the entry of `id`, if the account is registered.
    fn find(&self, id: &String) -> (r: Option<usize>)
        requires
            self.wf(),
        ensures
            match r {
                Some(i) => {
                    &&& i < self.entries@.len()
                    &&& self.entries@[i as int].id@ == id@
                    &&& self@.registered(id@)
                    &&& self@.balance_of(id@) == self.entries@[i as int].balance
                },
                None => !self@.registered(id@),
            },
    {
        let n: usize = self.entries.len();
        let mut j: usize = 0;
        while j < n
            invariant
                self.wf(),
                j <= n,
                n == self.entries@.len(),
                forall|t: int| 0 <= t < j ==> (#[trigger] self.entries@[t]).id@ != id@,
            decreases n - j,
        {
            if self.entries[j].id == *id {
                proof {
                    lemma_map_of_index(self.entries@, j as int);
                }
                return Some(j);
            }
            j = j + 1;
        }
        proof {
            lemma_map_of_contains(self.entries@, id@);
        }
        None
    }

    /// Whether `id` holds a ledger entry.
    pub fn is_registered(&self, id: &String) -> (r: bool)
        requires
            self.wf(),
        ensures
            r == self@.registered(id@),
    {
        self.find(id).is_some()
    }

    /// The balance of `id`; zero for an unregistered account.
    pub fn balance_of(&self, id: &String) -> (r: u128)
        requires
            self.wf(),
        ensures
            r == self@.balance_of(id@),
    {
        match self.find(id) {
            Some(i) => self.entries[i].balance,
            None => 0,
        }
    }

    /// The total supply scalar.
    pub fn total_supply(&self) -> (r: u128)
        ensures
            r == self@.supply,
    {
        self.supply
    }

    /// Creates a zero-balance entry for `id` if absent; idempotent on a
    /// registered account. Never changes the supply.
    pub fn register(&mut self, id: &String)
        requires
            old(self).wf(),
        ensures
            final(self).wf(),
            final(self)@ == old(self)@.register(id@),
    {
        match self.find(id) {
            Some(_) => {
                proof {
                    assert(self@ =~= old(self)@.register(id@));
                }
            },
            None => {
                let entry = AccountEntry { id: id.clone(), balance: 0 };
                proof {
                    lemma_map_of_push(self.entries@, entry);
                }
                self.entries.push(entry);
                proof {
                    assert(self@ =~= old(self)@.register(id@));
                }
            },
        }
    }

    /// Removes the entry of `id`, returning its prior balance, which leaves
    /// the supply (a burn when positive); `None` if not registered.
    pub fn unregister(&mut self, id: &String) -> (r: Option<u128>)
        requires
            old(self).wf(),
        ensures
            final(self).wf(),
            match r {
                Some(b) => {
                    &&& old(self)@.registered(id@)
                    &&& b == old(self)@.balance_of(id@)
                    &&& final(self)@ == old(self)@.unregister(id@)
                },
                None => !old(self)@.registered(id@) && *final(self) == *old(self),
            },
    {
        match self.find(id) {
            None => None,
            Some(i) => {
                let bal: u128 = self.entries[i].balance;
                proof {
                    lemma_map_of_remove(self.entries@, i as int);
                    lemma_sum_element(self.entries@, i as int);
                }
                self.entries.remove(i);
                self.supply = self.supply - bal;
                proof {
                    assert(self@ =~= old(self)@.unregister(id@));
                }
                Some(bal)
            },
        }
    }

    /// Credits `amount` to `id`, increasing balance and supply together.
    /// Fails, changing nothing, if `id` is unregistered or either value
    /// would overflow.
    pub fn deposit(&mut self, id: &String, amount: u128) -> (r: Result<(), TokenError>)
        requires
            old(self).wf(),
        ensures
            final(self).wf(),
            match r {
                Ok(()) => {
                    &&& old(self)@.can_deposit(id@, amount)
                    &&& final(self)@ == old(self)@.deposit(id@, amount)
                },
                Err(e) => *final(self) == *old(self) && match e {
                    TokenError::NotRegistered(a) => a@ == id@ && !old(self)@.registered(id@),
                    TokenError::BalanceOverflow => {
                        &&& old(self)@.registered(id@)
                        &&& old(self)@.balance_of(id@) + amount > u128::MAX
                    },
                    TokenError::TotalSupplyOverflow => {
                        &&& old(self)@.registered(id@)
                        &&& old(self)@.balance_of(id@) + amount <= u128::MAX
                        &&& old(self)@.supply + amount > u128::MAX
                    },
                    _ => false,
                },
            },
    {
        match self.find(id) {
            None => Err(TokenError::NotRegistered(id.clone())),
            Some(i) => {
                let bal: u128 = self.entries[i].balance;
                match bal.checked_add(amount) {
                    None => Err(TokenError::BalanceOverflow),
                    Some(nb) => match self.supply.checked_add(amount) {
                        None => Err(TokenError::TotalSupplyOverflow),
                        Some(ns) => {
                            let nid = self.entries[i].id.clone();
                            let entry = AccountEntry { id: nid, balance: nb };
                            proof {
                                lemma_map_of_update(self.entries@, i as int, entry);
                            }
                            self.entries.set(i, entry);
                            self.supply = ns;
                            proof {
                                assert(self@ =~= old(self)@.deposit(id@, amount));
                            }
                            Ok(())
                        },
                    },
                }
            },
        }
    }

    /// Debits `amount` from `id`, decreasing balance and supply together.
    /// Fails, changing nothing, if `id` is unregistered or holds less than
    /// `amount`.
    pub fn withdraw(&mut self, id: &String, amount: u128) -> (r: Result<(), TokenError>)
        requires
            old(self).wf(),
        ensures
            final(self).wf(),
            match r {
                Ok(()) => {
                    &&& old(self)@.can_withdraw(id@, amount)
                    &&& final(self)@ == old(self)@.withdraw(id@, amount)
                },
                Err(e) => *final(self) == *old(self) && match e {
                    TokenError::NotRegistered(a) => a@ == id@ && !old(self)@.registered(id@),
                    TokenError::InsufficientBalance => {
                        &&& old(self)@.registered(id@)
                        &&& amount > old(self)@.balance_of(id@)
                    },
                    _ => false,
                },
            },
    {
        match self.find(id) {
            None => Err(TokenError::NotRegistered(id.clone())),
            Some(i) => {
                let bal: u128 = self.entries[i].balance;
                if amount > bal {
                    Err(TokenError::InsufficientBalance)
                } else {
                    let nid = self.entries[i].id.clone();
                    let entry = AccountEntry { id: nid, balance: bal - amount };
                    proof {
                        lemma_map_of_update(self.entries@, i as int, entry);
                        lemma_sum_element(self.entries@, i as int);
                    }
                    self.entries.set(i, entry);
                    self.supply = self.supply - amount;
                    proof {
                        assert(self@ =~= old(self)@.withdraw(id@, amount));
                    }
                    Ok(())
                }
            },
        }
    }

    /// Lists every registered account with its balance, so a host can
    /// persist the ledger: each listed pair is a registered account with
    /// its balance, no account is listed twice, and every registered
    /// account is listed.
    pub fn accounts(&self) -> (v: Vec<(String, u128)>)
        requires
            self.wf(),
        ensures
            forall|i: int|
                0 <= i < v@.len() ==> {
                    &&& self@.registered((#[trigger] v@[i]).0@)
                    &&& self@.balance_of(v@[i].0@) == v@[i].1
                },
            forall|i: int, j: int|
                #![trigger v@[i], v@[j]]
                0 <= i < j < v@.len() ==> v@[i].0@ != v@[j].0@,
            forall|k: Seq<char>|
                #[trigger] self@.registered(k) ==> exists|i: int|
                    0 <= i < v@.len() && (#[trigger] v@[i]).0@ == k,
    {
        let n: usize = self.entries.len();
        let mut v: Vec<(String, u128)> = Vec::new();
        let mut i: usize = 0;
        while i < n
            invariant
                self.wf(),
                i <= n,
                n == self.entries@.len(),
                v@.len() == i,
                forall|t: int|
                    0 <= t < i ==> {
                        &&& (#[trigger] v@[t]).0@ == self.entries@[t].id@
                        &&& v@[t].1 == self.entries@[t].balance
                    },
            decreases n - i,
        {
            v.push((self.entries[i].id.clone(), self.entries[i].balance));
            i = i + 1;
        }
        proof {
            assert forall|t: int| 0 <= t < v@.len() implies {
                &&& self@.registered((#[trigger] v@[t]).0@)
                &&& self@.balance_of(v@[t].0@) == v@[t].1
            } by {
                lemma_map_of_index(self.entries@, t);
            }
            assert forall|k: Seq<char>| #[trigger]
                self@.registered(k) implies exists|t: int|
                0 <= t < v@.len() && (#[trigger] v@[t]).0@ == k by {
                lemma_map_of_contains(self.entries@, k);
                let t = choose|t: int|
                    0 <= t < self.entries@.len() && (#[trigger] self.entries@[t]).id@ == k;
                assert(v@[t].0@ == k);
            }
        }
        v
    }

    /// Rebuilds a ledger from a listing of accounts and balances, as
    /// [`Ledger::accounts`] produced it: each listed account registered
    /// with its listed balance, the supply their sum. Fails if an account
    /// is listed twice or the sum does not fit.
    pub fn from_accounts(list: &Vec<(String, u128)>) -> (r: Result<Ledger, TokenError>)
        ensures
            match r {
                Ok(l) => {
                    &&& l.wf()
                    &&& forall|i: int, j: int|
                        #![trigger list@[i], list@[j]]
                        0 <= i < j < list@.len() ==> list@[i].0@ != list@[j].0@
                    &&& pairs_sum(list@) <= u128::MAX
                    &&& l@.supply == pairs_sum(list@)
                    &&& forall|i: int|
                        0 <= i < list@.len() ==> {
                            &&& l@.registered((#[trigger] list@[i]).0@)
                            &&& l@.balance_of(list@[i].0@) == list@[i].1
                        }
                    &&& forall|k: Seq<char>|
                        #[trigger] l@.registered(k) ==> exists|i: int|
                            0 <= i < list@.len() && (#[trigger] list@[i]).0@ == k
                },
                Err(e) => match e {
                    TokenError::AlreadyRegistered => exists|i: int, j: int|
                        #![trigger list@[i], list@[j]]
                        0 <= i < j < list@.len() && list@[i].0@ == list@[j].0@,
                    TokenError::TotalSupplyOverflow => pairs_sum(list@) > u128::MAX,
                    _ => false,
                },
            },
    {
        let n: usize = list.len();
        let mut ledger = Ledger::new();
        let mut i: usize = 0;
        while i < n
            invariant
                ledger.wf(),
                i <= n,
                n == list@.len(),
                ledger@.supply == pairs_sum(list@.subrange(0, i as int)),
                forall|t: int|
                    0 <= t < i ==> {
                        &&& ledger@.registered((#[trigger] list@[t]).0@)
                        &&& ledger@.balance_of(list@[t].0@) == list@[t].1
                    },
                forall|k: Seq<char>|
                    #[trigger] ledger@.registered(k) ==> exists|t: int|
                        0 <= t < i && (#[trigger] list@[t]).0@ == k,
                forall|a: int, b: int|
                    #![trigger list@[a], list@[b]]
                    0 <= a < b < i ==> list@[a].0@ != list@[b].0@,
            decreases n - i,
        {
            let ghost pre = ledger@;
            let account = &list[i].0;
            let balance: u128 = list[i].1;
            if ledger.is_registered(account) {
                proof {
                    let t = choose|t: int| 0 <= t < i && (#[trigger] list@[t]).0@ == account@;
                    assert(list@[t].0@ == list@[i as int].0@);
                }
                return Err(TokenError::AlreadyRegistered);
            }
            ledger.register(account);
            proof {
                assert(list@.subrange(0, i + 1).drop_last() =~= list@.subrange(0, i as int));
            }
            match ledger.deposit(account, balance) {
                Ok(()) => {},
                Err(e) => {
                    proof {
                        lemma_pairs_sum_prefix_le(list@, i + 1);
                    }
                    return Err(e);
                },
            }
            proof {
                assert forall|k: Seq<char>| #[trigger]
                    ledger@.registered(k) implies exists|t: int|
                    0 <= t < i + 1 && (#[trigger] list@[t]).0@ == k by {
                    if k == account@ {
                        assert(list@[i as int].0@ == k);
                    } else {
                        assert(pre.registered(k));
                    }
                }
                assert forall|a: int, b: int|
                    #![trigger list@[a], list@[b]]
                    0 <= a < b < i + 1 implies list@[a].0@ != list@[b].0@ by {
                    if b == i && list@[a].0@ == list@[b].0@ {
                        assert(pre.registered(list@[a].0@));
                    }
                }
            }
            i = i + 1;
        }
        proof {
            assert(list@.subrange(0, n as int) =~= list@);
        }
        Ok(ledger)
    }
}

} // verus!
