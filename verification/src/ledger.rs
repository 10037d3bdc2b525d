//! A minimal currency ledger: free balances per account plus the
//! existential-deposit floor, the minimum balance an account must hold to
//! remain viable.
//!
//! The allocation state machine only ever reads balances and credits
//! accounts; this ledger exposes exactly those operations.

use vstd::prelude::*;

use crate::{AccountId, Balance};

verus! {

/// Holds when no account occurs twice in the entry list.
pub open spec fn unique_accounts(s: Seq<(AccountId, Balance)>) -> bool {
    forall|i: int, j: int| 0 <= i < j < s.len() ==> s[i].0 != s[j].0
}

/// The free balance recorded for `who` in `s`, zero when absent.
pub open spec fn balance_in(s: Seq<(AccountId, Balance)>, who: AccountId) -> Balance
    decreases s.len(),
{
    if s.len() == 0 {
        0
    } else if s.last().0 == who {
        s.last().1
    } else {
        balance_in(s.drop_last(), who)
    }
}

/// An account's balance comes from its entry: when `s[i].0 == who` and
/// accounts are unique, the recorded balance is `s[i].1`.
proof fn lemma_balance_at_index(s: Seq<(AccountId, Balance)>, i: int)
    requires
        unique_accounts(s),
        0 <= i < s.len(),
    ensures
        balance_in(s, s[i].0) == s[i].1,
    decreases s.len(),
{
    if i < s.len() - 1 {
        assert(s.last().0 != s[i].0);
        assert(s.drop_last()[i] == s[i]);
        lemma_balance_at_index(s.drop_last(), i);
    }
}

/// An account with no entry has balance zero.
proof fn lemma_balance_absent(s: Seq<(AccountId, Balance)>, who: AccountId)
    requires
        forall|i: int| 0 <= i < s.len() ==> s[i].0 != who,
    ensures
        balance_in(s, who) == 0,
    decreases s.len(),
{
    if s.len() > 0 {
        lemma_balance_absent(s.drop_last(), who);
    }
}

/// Updating the entry at `i` changes only that account's balance.
proof fn lemma_balance_update(s: Seq<(AccountId, Balance)>, i: int, b: Balance, a: AccountId)
    requires
        unique_accounts(s),
        0 <= i < s.len(),
    ensures
        balance_in(s.update(i, (s[i].0, b)), a)
            == (if a == s[i].0 { b } else { balance_in(s, a) }),
    decreases s.len(),
{
    let t = s.update(i, (s[i].0, b));
    assert(t.len() == s.len());
    if i == s.len() - 1 {
        assert(t.last() == (s[i].0, b));
        assert(t.drop_last() =~= s.drop_last());
        if a != s[i].0 {
            assert(balance_in(t, a) == balance_in(s.drop_last(), a));
        }
    } else {
        assert(t.last() == s.last());
        assert(t.drop_last() =~= s.drop_last().update(i, (s[i].0, b)));
        assert(s.drop_last()[i] == s[i]);
        lemma_balance_update(s.drop_last(), i, b, a);
        if a == s[i].0 {
            assert(s.last().0 != s[i].0);
        }
    }
}

/// A freshly appended entry sets that account's balance and leaves every
/// other account's balance as it was.
proof fn lemma_balance_push(s: Seq<(AccountId, Balance)>, who: AccountId, b: Balance, a: AccountId)
    ensures
        balance_in(s.push((who, b)), a) == (if a == who { b } else { balance_in(s, a) }),
{
    let t = s.push((who, b));
    assert(t.last() == (who, b));
    assert(t.drop_last() =~= s);
}

/// The currency ledger: per-account free balances and the configured
/// existential deposit.
#[derive(Clone, Debug)]
pub struct Ledger {
    /// Per-account free balances; each account occurs at most once.
    pub accounts: Vec<(AccountId, Balance)>,
    /// Minimum balance an account must hold to remain viable.
    pub existential_deposit: Balance,
}

impl Ledger {
    /// Well-formedness: each account has at most one entry.
    pub open spec fn wf(self) -> bool {
        unique_accounts(self.accounts@)
    }

    /// The free balance of `who`, zero when the account has no entry.
    pub open spec fn balance_of(self, who: AccountId) -> Balance {
        balance_in(self.accounts@, who)
    }

    /// Create an empty ledger with the given existential deposit.
    pub fn new(existential_deposit: Balance) -> (r: Ledger)
        ensures
            r.wf(),
            r.existential_deposit == existential_deposit,
            forall|a: AccountId| r.balance_of(a) == 0,
    {
        let r = Ledger { accounts: Vec::new(), existential_deposit };
        proof {
            assert forall|a: AccountId| r.balance_of(a) == 0 by {
                lemma_balance_absent(r.accounts@, a);
            }
        }
        r
    }

    /// Position of the entry for `who`, when there is one.
    fn find(&self, who: AccountId) -> (r: Option<usize>)
        requires
            self.wf(),
        ensures
            match r {
                Some(i) => i < self.accounts@.len() && self.accounts@[i as int].0 == who,
                None => forall|i: int| 0 <= i < self.accounts@.len() ==> self.accounts@[i].0 != who,
            },
    {
        let mut i: usize = 0;
        while i < self.accounts.len()
            invariant
                i <= self.accounts@.len(),
                forall|k: int| 0 <= k < i ==> self.accounts@[k].0 != who,
            decreases self.accounts@.len() - i,
        {
            if self.accounts[i].0 == who {
                return Some(i);
            }
            i = i + 1;
        }
        None
    }

    /// The free balance of `who`.
    pub fn free_balance(&self, who: AccountId) -> (r: Balance)
        requires
            self.wf(),
        ensures
            r == self.balance_of(who),
    {
        match self.find(who) {
            Some(i) => {
                proof {
                    lemma_balance_at_index(self.accounts@, i as int);
                }
                self.accounts[i].1
            },
            None => {
                proof {
                    lemma_balance_absent(self.accounts@, who);
                }
                0
            },
        }
    }

    /// Credit `amount` to `who`, creating the account when absent.
    pub fn credit(&mut self, who: AccountId, amount: Balance)
        requires
            old(self).wf(),
            old(self).balance_of(who) + amount <= Balance::MAX,
        ensures
            final(self).wf(),
            final(self).existential_deposit == old(self).existential_deposit,
            forall|a: AccountId|
                final(self).balance_of(a)
                    == old(self).balance_of(a) + (if a == who { amount as int } else { 0int }),
    {
        let ghost pre = self.accounts@;
        match self.find(who) {
            Some(i) => {
                proof {
                    lemma_balance_at_index(pre, i as int);
                }
                let updated = self.accounts[i].1 + amount;
                self.accounts.set(i, (who, updated));
                proof {
                    assert(self.accounts@ =~= pre.update(i as int, (pre[i as int].0, updated)));
                    assert forall|x: int, y: int|
                        0 <= x < y < self.accounts@.len() implies self.accounts@[x].0
                        != self.accounts@[y].0 by {
                        assert(self.accounts@[x].0 == pre[x].0 && self.accounts@[y].0 == pre[y].0);
                    }
                    assert forall|a: AccountId|
                        final(self).balance_of(a)
                            == old(self).balance_of(a) + (if a == who { amount as int } else { 0int }) by {
                        lemma_balance_update(pre, i as int, updated, a);
                    }
                }
            },
            None => {
                proof {
                    lemma_balance_absent(pre, who);
                }
                self.accounts.push((who, amount));
                proof {
                    assert forall|x: int, y: int|
                        0 <= x < y < self.accounts@.len() implies self.accounts@[x].0
                        != self.accounts@[y].0 by {
                        if y < pre.len() {
                            assert(self.accounts@[x] == pre[x] && self.accounts@[y] == pre[y]);
                        } else {
                            assert(self.accounts@[x] == pre[x]);
                            assert(self.accounts@[y].0 == who);
                        }
                    }
                    assert forall|a: AccountId|
                        final(self).balance_of(a)
                            == old(self).balance_of(a) + (if a == who { amount as int } else { 0int }) by {
                        lemma_balance_push(pre, who, amount, a);
                    }
                }
            },
        }
    }

    /// Overwrite the free balance of `who`, as a genesis or test harness
    /// would.
    pub fn set_balance(&mut self, who: AccountId, amount: Balance)
        requires
            old(self).wf(),
        ensures
            final(self).wf(),
            final(self).existential_deposit == old(self).existential_deposit,
            final(self).balance_of(who) == amount,
            forall|a: AccountId| a != who ==> final(self).balance_of(a) == old(self).balance_of(a),
    {
        let ghost pre = self.accounts@;
        match self.find(who) {
            Some(i) => {
                self.accounts.set(i, (who, amount));
                proof {
                    assert(self.accounts@ =~= pre.update(i as int, (pre[i as int].0, amount)));
                    assert forall|x: int, y: int|
                        0 <= x < y < self.accounts@.len() implies self.accounts@[x].0
                        != self.accounts@[y].0 by {
                        assert(self.accounts@[x].0 == pre[x].0 && self.accounts@[y].0 == pre[y].0);
                    }
                    assert forall|a: AccountId|
                        final(self).balance_of(a)
                            == (if a == who { amount } else { old(self).balance_of(a) }) by {
                        lemma_balance_update(pre, i as int, amount, a);
                    }
                }
            },
            None => {
                self.accounts.push((who, amount));
                proof {
                    assert forall|x: int, y: int|
                        0 <= x < y < self.accounts@.len() implies self.accounts@[x].0
                        != self.accounts@[y].0 by {
                        if y < pre.len() {
                            assert(self.accounts@[x] == pre[x] && self.accounts@[y] == pre[y]);
                        } else {
                            assert(self.accounts@[x] == pre[x]);
                            assert(self.accounts@[y].0 == who);
                        }
                    }
                    assert forall|a: AccountId|
                        final(self).balance_of(a)
                            == (if a == who { amount } else { old(self).balance_of(a) }) by {
                        lemma_balance_push(pre, who, amount, a);
                    }
                }
            },
        }
    }
}

} // verus!
