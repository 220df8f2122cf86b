//! Per-account balances kept as a list of entries, where the latest entry
//! for an account holds its balance.
use vstd::prelude::*;
use crate::account::same_bytes;

verus! {

/// Balance of `k` in `s`: the amount of its latest entry, or zero.
pub open spec fn balance_in(s: Seq<(Seq<u8>, u128)>, k: Seq<u8>) -> u128
    decreases s.len(),
{
    if s.len() == 0 {
        0
    } else if s.last().0 == k {
        s.last().1
    } else {
        balance_in(s.drop_last(), k)
    }
}

/// Without an entry for `k`, its balance is zero.
proof fn lemma_absent(s: Seq<(Seq<u8>, u128)>, k: Seq<u8>)
    requires
        forall|j: int| 0 <= j < s.len() ==> (#[trigger] s[j]).0 != k,
    ensures
        balance_in(s, k) == 0,
    decreases s.len(),
{
    if s.len() > 0 {
        lemma_absent(s.drop_last(), k);
    }
}

/// Overwriting the latest entry of `a` sets its balance and keeps the others.
proof fn lemma_update_latest(s: Seq<(Seq<u8>, u128)>, i: int, a: Seq<u8>, v: u128)
    requires
        0 <= i < s.len(),
        s[i].0 == a,
        forall|j: int| i < j < s.len() ==> (#[trigger] s[j]).0 != a,
    ensures
        balance_in(s.update(i, (a, v)), a) == v,
        forall|k: Seq<u8>| k != a ==> #[trigger] balance_in(s.update(i, (a, v)), k) == balance_in(s, k),
    decreases s.len(),
{
    let t = s.update(i, (a, v));
    if i == s.len() - 1 {
        assert(t.drop_last() =~= s.drop_last());
        assert forall|k: Seq<u8>| k != a implies #[trigger] balance_in(t, k) == balance_in(s, k) by {
            assert(balance_in(t, k) == balance_in(t.drop_last(), k));
            assert(balance_in(s, k) == balance_in(s.drop_last(), k));
        }
    } else {
        lemma_update_latest(s.drop_last(), i, a, v);
        assert(t.drop_last() =~= s.drop_last().update(i, (a, v)));
        assert(t.last() == s.last());
        assert forall|k: Seq<u8>| k != a implies #[trigger] balance_in(t, k) == balance_in(s, k) by {
            if s.last().0 != k {
                assert(balance_in(t, k) == balance_in(t.drop_last(), k));
                assert(balance_in(s, k) == balance_in(s.drop_last(), k));
            }
        }
    }
}

pub struct Ledger {
    pub entries: Vec<(Vec<u8>, u128)>,
}

impl Ledger {
    pub open spec fn view_entries(&self) -> Seq<(Seq<u8>, u128)> {
        self.entries@.map_values(|e: (Vec<u8>, u128)| (e.0@, e.1))
    }

    /// Balance of account `k`.
    pub open spec fn balance(&self, k: Seq<u8>) -> u128 {
        balance_in(self.view_entries(), k)
    }

    pub fn new() -> (r: Ledger)
        ensures
            forall|k: Seq<u8>| #[trigger] r.balance(k) == 0,
    {
        Ledger { entries: Vec::new() }
    }

    /// Position of the latest entry for `account`, if any.
    fn latest(&self, account: &Vec<u8>) -> (r: Option<usize>)
        ensures
            r is Some ==> r->Some_0 < self.entries@.len()
                && self.view_entries()[r->Some_0 as int].0 == account@
                && forall|j: int| r->Some_0 < j < self.entries@.len() ==> (#[trigger] self.view_entries()[j]).0 != account@,
            r is None ==> forall|j: int| 0 <= j < self.entries@.len() ==> (#[trigger] self.view_entries()[j]).0 != account@,
    {
        let mut i: usize = self.entries.len();
        while i > 0
            invariant
                0 <= i <= self.entries@.len(),
                forall|j: int| i <= j < self.entries@.len() ==> (#[trigger] self.view_entries()[j]).0 != account@,
            decreases i,
        {
            if same_bytes(&self.entries[i - 1].0, account) {
                return Some(i - 1);
            }
            i = i - 1;
        }
        None
    }

    /// Current balance of `account`, zero if it never deposited.
    pub fn get(&self, account: &Vec<u8>) -> (r: u128)
        ensures
            r == self.balance(account@),
    {
        match self.latest(account) {
            Some(i) => {
                proof {
                    let s = self.view_entries();
                    lemma_update_latest(s, i as int, account@, s[i as int].1);
                    assert(s.update(i as int, (account@, s[i as int].1)) =~= s);
                }
                self.entries[i].1
            },
            None => {
                proof {
                    lemma_absent(self.view_entries(), account@);
                }
                0
            },
        }
    }

    /// Sets the balance of `account` to `amount`, leaving every other
    /// balance as it was.
    pub fn set(&mut self, account: Vec<u8>, amount: u128)
        ensures
            final(self).balance(account@) == amount,
            forall|k: Seq<u8>| k != account@ ==> #[trigger] final(self).balance(k) == old(self).balance(k),
    {
        let ghost a = account@;
        match self.latest(&account) {
            Some(i) => {
                self.entries.set(i, (account, amount));
                proof {
                    lemma_update_latest(old(self).view_entries(), i as int, a, amount);
                    assert(self.view_entries() =~= old(self).view_entries().update(i as int, (a, amount)));
                }
            },
            None => {
                self.entries.push((account, amount));
                assert(self.view_entries().drop_last() =~= old(self).view_entries());
                assert(self.view_entries().last() == (a, amount));
            },
        }
    }
}

} // verus!
