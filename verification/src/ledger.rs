//! The balance ledger: the per-account, per-token balance store, and the
//! transfer operation that is the only place where value moves.

use crate::DexError;
use vstd::prelude::*;

verus! {

/// Authoritative store of balances. Each entry holds `(account, token,
/// balance)`; a key that no entry carries has balance zero. Entries are
/// created on first write and never deleted.
pub struct Ledger {
    entries: Vec<(u64, u64, u64)>,
}

/// The balance that `s` stores for `(account, token)`: the first entry with
/// that key, or zero when none holds it.
spec fn seq_balance(s: Seq<(u64, u64, u64)>, account: u64, token: u64) -> u64
    decreases s.len(),
{
    if s.len() == 0 {
        0u64
    } else if s[0].0 == account && s[0].1 == token {
        s[0].2
    } else {
        seq_balance(s.skip(1), account, token)
    }
}

/// Overwriting the first entry for a key changes that key's balance to the
/// new value and no other balance.
proof fn lemma_set_first_match(s: Seq<(u64, u64, u64)>, j: int, account: u64, token: u64, value: u64)
    requires
        0 <= j < s.len(),
        s[j].0 == account && s[j].1 == token,
        forall|k: int| 0 <= k < j ==> !((#[trigger] s[k]).0 == account && s[k].1 == token),
    ensures
        seq_balance(s.update(j, (account, token, value)), account, token) == value,
        forall|a: u64, t: u64|
            !(a == account && t == token) ==> seq_balance(s.update(j, (account, token, value)), a, t)
                == seq_balance(s, a, t),
    decreases j,
{
    let s2 = s.update(j, (account, token, value));
    if j == 0 {
        assert(s2[0] == (account, token, value));
        assert(s2.skip(1) =~= s.skip(1));
        assert forall|a: u64, t: u64| !(a == account && t == token) implies seq_balance(s2, a, t)
            == seq_balance(s, a, t) by {
            assert(seq_balance(s2, a, t) == seq_balance(s2.skip(1), a, t));
            assert(seq_balance(s, a, t) == seq_balance(s.skip(1), a, t));
        }
    } else {
        assert(s.skip(1)[j - 1] == s[j]);
        assert forall|k: int| 0 <= k < j - 1 implies !((#[trigger] s.skip(1)[k]).0 == account
            && s.skip(1)[k].1 == token) by {
            assert(s.skip(1)[k] == s[k + 1]);
        }
        lemma_set_first_match(s.skip(1), j - 1, account, token, value);
        assert(s2.skip(1) =~= s.skip(1).update(j - 1, (account, token, value)));
        assert(s2[0] == s[0]);
        assert(!(s[0].0 == account && s[0].1 == token));
        assert(seq_balance(s2, account, token) == seq_balance(s2.skip(1), account, token));
        assert forall|a: u64, t: u64| !(a == account && t == token) implies seq_balance(s2, a, t)
            == seq_balance(s, a, t) by {
            if !(s[0].0 == a && s[0].1 == t) {
                assert(seq_balance(s2, a, t) == seq_balance(s2.skip(1), a, t));
                assert(seq_balance(s, a, t) == seq_balance(s.skip(1), a, t));
            }
        }
    }
}

/// Appending an entry for a key that no entry carries gives that key the new
/// value and changes no other balance.
proof fn lemma_push_new_key(s: Seq<(u64, u64, u64)>, account: u64, token: u64, value: u64)
    requires
        forall|k: int| 0 <= k < s.len() ==> !((#[trigger] s[k]).0 == account && s[k].1 == token),
    ensures
        seq_balance(s.push((account, token, value)), account, token) == value,
        forall|a: u64, t: u64|
            !(a == account && t == token) ==> seq_balance(s.push((account, token, value)), a, t)
                == seq_balance(s, a, t),
    decreases s.len(),
{
    let s2 = s.push((account, token, value));
    if s.len() == 0 {
        assert(s2[0] == (account, token, value));
        assert(s2.skip(1) =~= Seq::<(u64, u64, u64)>::empty());
        assert forall|a: u64, t: u64| !(a == account && t == token) implies seq_balance(s2, a, t)
            == seq_balance(s, a, t) by {
            assert(seq_balance(s2, a, t) == seq_balance(s2.skip(1), a, t));
        }
    } else {
        assert forall|k: int| 0 <= k < s.skip(1).len() implies !((#[trigger] s.skip(1)[k]).0
            == account && s.skip(1)[k].1 == token) by {
            assert(s.skip(1)[k] == s[k + 1]);
        }
        lemma_push_new_key(s.skip(1), account, token, value);
        assert(s2.skip(1) =~= s.skip(1).push((account, token, value)));
        assert(s2[0] == s[0]);
        assert(!(s[0].0 == account && s[0].1 == token));
        assert(seq_balance(s2, account, token) == seq_balance(s2.skip(1), account, token));
        assert forall|a: u64, t: u64| !(a == account && t == token) implies seq_balance(s2, a, t)
            == seq_balance(s, a, t) by {
            if !(s[0].0 == a && s[0].1 == t) {
                assert(seq_balance(s2, a, t) == seq_balance(s2.skip(1), a, t));
                assert(seq_balance(s, a, t) == seq_balance(s.skip(1), a, t));
            }
        }
    }
}

impl Ledger {
    /// The balance this ledger stores for `(account, token)`; zero for a key
    /// that was never written.
    pub closed spec fn spec_balance(self, account: u64, token: u64) -> u64 {
        seq_balance(self.entries@, account, token)
    }

    /// An empty ledger: every balance is zero.
    pub fn new() -> (r: Ledger)
        ensures
            forall|a: u64, t: u64| r.spec_balance(a, t) == 0u64,
    {
        Ledger { entries: Vec::new() }
    }

    /// Returns the stored balance, or zero if absent. No side effect.
    pub fn balance_of(&self, account: u64, token: u64) -> (r: u64)
        ensures
            r == self.spec_balance(account, token),
    {
        let n: usize = self.entries.len();
        let mut i: usize = 0;
        proof {
            assert(self.entries@.skip(0) =~= self.entries@);
        }
        while i < n
            invariant
                n == self.entries@.len(),
                i <= n,
                seq_balance(self.entries@, account, token) == seq_balance(
                    self.entries@.skip(i as int),
                    account,
                    token,
                ),
            decreases n - i,
        {
            let e: (u64, u64, u64) = self.entries[i];
            proof {
                assert(self.entries@.skip(i as int)[0] == e);
            }
            if e.0 == account && e.1 == token {
                return e.2;
            }
            proof {
                assert(self.entries@.skip(i as int).skip(1) =~= self.entries@.skip(i as int + 1));
            }
            i = i + 1;
        }
        proof {
            assert(self.entries@.skip(n as int).len() == 0);
        }
        0
    }

    /// Writes the balance for `(account, token)`, creating the entry on
    /// first write. Every other balance is left as it was.
    pub fn set_balance(&mut self, account: u64, token: u64, value: u64)
        ensures
            final(self).spec_balance(account, token) == value,
            forall|a: u64, t: u64|
                !(a == account && t == token) ==> final(self).spec_balance(a, t) == old(
                    self).spec_balance(a, t),
    {
        let n: usize = self.entries.len();
        let mut i: usize = 0;
        while i < n
            invariant
                self.entries@ == old(self).entries@,
                n == self.entries@.len(),
                i <= n,
                forall|k: int|
                    0 <= k < i ==> !((#[trigger] self.entries@[k]).0 == account
                        && self.entries@[k].1 == token),
            decreases n - i,
        {
            let e: (u64, u64, u64) = self.entries[i];
            if e.0 == account && e.1 == token {
                self.entries.set(i, (account, token, value));
                proof {
                    lemma_set_first_match(old(self).entries@, i as int, account, token, value);
                }
                return;
            }
            i = i + 1;
        }
        self.entries.push((account, token, value));
        proof {
            lemma_push_new_key(old(self).entries@, account, token, value);
        }
    }

    /// Debits `from` and credits `to` by `amount` of `token`. Fails with
    /// `InsufficientBalance` when `from` holds less than `amount`, and with
    /// `Overflow` when crediting `to` would exceed the numeric range; on
    /// failure no balance changes. Both writes are applied together, a zero
    /// amount is a no-op that still succeeds, and a transfer to oneself
    /// leaves the ledger as it was.
    pub fn transfer(&mut self, from: u64, to: u64, token: u64, amount: u64) -> (r: Result<
        (),
        DexError,
    >)
        ensures
            old(self).spec_balance(from, token) < amount ==> r == Err::<(), DexError>(
                DexError::InsufficientBalance,
            ),
            old(self).spec_balance(from, token) >= amount && from != to && old(self).spec_balance(
                to,
                token,
            ) + amount > u64::MAX ==> r == Err::<(), DexError>(DexError::Overflow),
            old(self).spec_balance(from, token) >= amount && (from == to || old(self).spec_balance(
                to,
                token,
            ) + amount <= u64::MAX) ==> r == Ok::<(), DexError>(()),
            r is Err ==> *final(self) == *old(self),
            r is Ok && from == to ==> *final(self) == *old(self),
            r is Ok && from != to ==> {
                &&& final(self).spec_balance(from, token) == old(self).spec_balance(from, token)
                    - amount
                &&& final(self).spec_balance(to, token) == old(self).spec_balance(to, token)
                    + amount
                &&& forall|a: u64, t: u64|
                    !(a == from && t == token) && !(a == to && t == token) ==> final(
                        self).spec_balance(a, t) == old(self).spec_balance(a, t)
            },
    {
        let from_bal: u64 = self.balance_of(from, token);
        if from_bal < amount {
            return Err(DexError::InsufficientBalance);
        }
        if from == to {
            return Ok(());
        }
        let to_bal: u64 = self.balance_of(to, token);
        if to_bal > u64::MAX - amount {
            return Err(DexError::Overflow);
        }
        self.set_balance(from, token, from_bal - amount);
        self.set_balance(to, token, to_bal + amount);
        Ok(())
    }
}

} // verus!
