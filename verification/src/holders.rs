//! The records of actors: lookup, creation and change of one balance.

use vstd::prelude::*;
use crate::address::Address;
use crate::model::{sum_balances, Holder, Ledger};
use crate::state::{Account, SimpleTokenNft};

verus! {

impl Ledger {
    /// Whether `self` and `other` differ in nothing but the records of
    /// actors.
    pub open spec fn same_but_holders(self, other: Ledger) -> bool {
        &&& self.same_settings(other)
        &&& self.assets == other.assets
        &&& self.same_market(other)
        &&& self.index == other.index
    }
}

/// In a ledger without two records of one actor, the record at `i` is the
/// record of its actor.
pub proof fn lemma_place(l: Ledger, i: int)
    requires
        l.holders_wf(),
        0 <= i < l.holders.len(),
    ensures
        l.knows(l.holders[i].who),
        l.place_of(l.holders[i].who) == i,
        l.balance_of(l.holders[i].who) == l.holders[i].balance,
        l.ids_of(l.holders[i].who) == l.holders[i].ids,
{
    let who = l.holders[i].who;
    assert(l.knows(who));
    let j = l.place_of(who);
    assert(0 <= j < l.holders.len() && l.holders[j].who == who);
    if j < i {
        assert(l.holders[j].who != l.holders[i].who);
    } else if i < j {
        assert(l.holders[i].who != l.holders[j].who);
    }
}

/// Replacing one record changes the sum of balances by the difference of
/// the two balances.
pub proof fn lemma_sum_update(s: Seq<Holder>, i: int, h: Holder)
    requires
        0 <= i < s.len(),
    ensures
        sum_balances(s.update(i, h)) == sum_balances(s) - s[i].balance + h.balance,
    decreases s.len(),
{
    let t = s.update(i, h);
    if i == s.len() - 1 {
        assert(t.drop_last() =~= s.drop_last());
    } else {
        assert(t.drop_last() =~= s.drop_last().update(i, h));
        lemma_sum_update(s.drop_last(), i, h);
    }
}

/// A further record adds its balance to the sum.
pub proof fn lemma_sum_push(s: Seq<Holder>, h: Holder)
    ensures
        sum_balances(s.push(h)) == sum_balances(s) + h.balance,
{
    assert(s.push(h).drop_last() =~= s);
}

/// No balance exceeds the sum of all of them, where none is negative.
pub proof fn lemma_sum_bounds(s: Seq<Holder>, i: int)
    requires
        0 <= i < s.len(),
        forall|k: int| 0 <= k < s.len() ==> (#[trigger] s[k]).balance >= 0,
    ensures
        0 <= s[i].balance <= sum_balances(s),
    decreases s.len(),
{
    lemma_sum_nonnegative(s.drop_last());
    if i < s.len() - 1 {
        lemma_sum_bounds(s.drop_last(), i);
    }
}

/// A sum of balances of which none is negative is not negative.
pub proof fn lemma_sum_nonnegative(s: Seq<Holder>)
    requires
        forall|k: int| 0 <= k < s.len() ==> (#[trigger] s[k]).balance >= 0,
    ensures
        sum_balances(s) >= 0,
    decreases s.len(),
{
    if s.len() > 0 {
        lemma_sum_nonnegative(s.drop_last());
    }
}

/// The sum of the first `n` balances does not exceed the sum of all, where
/// none is negative.
pub proof fn lemma_sum_prefix(s: Seq<Holder>, n: int)
    requires
        0 <= n <= s.len(),
        forall|k: int| 0 <= k < s.len() ==> (#[trigger] s[k]).balance >= 0,
    ensures
        0 <= sum_balances(s.take(n)) <= sum_balances(s),
    decreases s.len() - n,
{
    if n == s.len() {
        assert(s.take(n) =~= s);
        lemma_sum_nonnegative(s);
    } else {
        lemma_sum_prefix(s, n + 1);
        assert(s.take(n + 1).drop_last() =~= s.take(n));
        lemma_sum_nonnegative(s.take(n));
    }
}

/// A ledger that differs from `pre` in the balance of the record at `i`
/// only: what it keeps and what it changes.
pub proof fn lemma_balance_set(pre: Ledger, post: Ledger, i: int, balance: int)
    requires
        pre.structure_wf(),
        0 <= i < pre.holders.len(),
        balance >= 0,
        post.holders == pre.holders.update(i, Holder { balance, ..pre.holders[i] }),
        post.same_but_holders(pre),
    ensures
        post.structure_wf(),
        post.same_holdings(pre),
        post.total_balance() == pre.total_balance() - pre.holders[i].balance + balance,
        forall|a: Address|
            post.balance_of(a) == if a == pre.holders[i].who {
                balance
            } else {
                pre.balance_of(a)
            },
{
    lemma_sum_update(pre.holders, i, Holder { balance, ..pre.holders[i] });
    assert(post.holders_wf());
    assert forall|a: Address|
        post.ids_of(a) == pre.ids_of(a) && post.balance_of(a) == if a == pre.holders[i].who {
            balance
        } else {
            pre.balance_of(a)
        } by {
        lemma_same_actors(pre, post, a);
        if pre.knows(a) {
            let j = pre.place_of(a);
            lemma_place(pre, j);
            lemma_place(post, j);
        }
    }
    assert(post.ownership_wf()) by {
        assert forall|id: int| 0 <= id < post.assets.len() implies post.ids_of(
            (#[trigger] post.assets[id]).owner,
        ).contains(id as u32) by {
            assert(pre.ids_of(pre.assets[id].owner).contains(id as u32));
        }
    }
    assert(post.market_wf());
    assert(post.index_wf()) by {
        assert forall|pos: int, color: int| post.search(pos, color) == pre.search(pos, color) by {}
    }
}

/// Two ledgers whose records are of the same actors, place by place, know
/// the same actors.
pub proof fn lemma_same_actors(pre: Ledger, post: Ledger, a: Address)
    requires
        pre.holders.len() == post.holders.len(),
        forall|k: int| 0 <= k < pre.holders.len() ==> (#[trigger] pre.holders[k]).who == post.holders[k].who,
    ensures
        pre.knows(a) == post.knows(a),
{
    if pre.knows(a) {
        let j = pre.place_of(a);
        assert(post.holders[j].who == a);
    }
    if post.knows(a) {
        let j = post.place_of(a);
        assert(pre.holders[j].who == a);
    }
}

/// A ledger that differs from `pre` in one further record, of an actor
/// that had none, with no balance and no assets: every actor's balance and
/// assets are as before.
pub proof fn lemma_record_added(pre: Ledger, post: Ledger, who: Address)
    requires
        pre.structure_wf(),
        !pre.knows(who),
        post.holders == pre.holders.push(Holder { who, balance: 0, ids: Seq::empty() }),
        post.same_but_holders(pre),
    ensures
        post.structure_wf(),
        post.same_holdings(pre),
        post.same_balances(pre),
        post.total_balance() == pre.total_balance(),
        post.knows(who),
        post.place_of(who) == pre.holders.len(),
{
    let n = pre.holders.len() as int;
    lemma_sum_push(pre.holders, Holder { who, balance: 0, ids: Seq::empty() });
    assert(post.holders_wf()) by {
        assert forall|i: int, j: int| 0 <= i < j < post.holders.len() implies (
        #[trigger] post.holders[i]).who != (#[trigger] post.holders[j]).who by {
            if j == n {
                assert(pre.holders[i].who != who);
            } else {
                assert(pre.holders[i].who != pre.holders[j].who);
            }
        }
    }
    lemma_place(post, n);
    assert forall|a: Address|
        post.ids_of(a) == pre.ids_of(a) && post.balance_of(a) == pre.balance_of(a) by {
        if pre.knows(a) {
            let j = pre.place_of(a);
            lemma_place(pre, j);
            assert(post.holders[j] == pre.holders[j]);
            lemma_place(post, j);
        } else if post.knows(a) {
            let j = post.place_of(a);
            if j < n {
                assert(pre.holders[j].who == a);
            }
        }
    }
    assert(post.ownership_wf()) by {
        assert forall|i: int, k: int|
            0 <= i < post.holders.len() && 0 <= k < post.holders[i].ids.len() implies (
        #[trigger] post.holders[i].ids[k]) < post.assets.len() && post.assets[post.holders[i].ids[k] as int].owner
            == post.holders[i].who by {
            assert(post.holders[i] == pre.holders[i]);
            assert(pre.holders[i].ids[k] < pre.assets.len());
        }
        assert forall|i: int| 0 <= i < post.holders.len() implies (
        #[trigger] post.holders[i]).ids.no_duplicates() by {
            if i < n {
                assert(post.holders[i] == pre.holders[i]);
            }
        }
        assert forall|id: int| 0 <= id < post.assets.len() implies post.ids_of(
            (#[trigger] post.assets[id]).owner,
        ).contains(id as u32) by {
            assert(pre.ids_of(pre.assets[id].owner).contains(id as u32));
        }
    }
    assert(post.market_wf());
    assert(post.index_wf()) by {
        assert forall|pos: int, color: int| post.search(pos, color) == pre.search(pos, color) by {}
    }
}

/// The place of the first record of `who` among `accounts`, if there is one.
pub fn position_of(accounts: &Vec<Account>, who: Address) -> (r: Option<usize>)
    ensures
        match r {
            Some(i) => {
                &&& i < accounts@.len()
                &&& accounts@[i as int].who == who
                &&& forall|k: int| 0 <= k < i ==> (#[trigger] accounts@[k]).who != who
            },
            None => forall|k: int| 0 <= k < accounts@.len() ==> (#[trigger] accounts@[k]).who != who,
        },
{
    let mut i: usize = 0;
    while i < accounts.len()
        invariant
            i <= accounts.len(),
            forall|k: int| 0 <= k < i ==> (#[trigger] accounts@[k]).who != who,
        decreases accounts.len() - i,
    {
        if accounts[i].who == who {
            return Some(i);
        }
        i += 1;
    }
    None
}

impl SimpleTokenNft {
    /// The place of the record of `who`, if there is one.
    pub(crate) fn find_account(&self, who: Address) -> (r: Option<usize>)
        ensures
            match r {
                Some(i) => i < self@.holders.len() && self@.holders[i as int].who == who,
                None => !self@.knows(who),
            },
    {
        let r = position_of(&self.accounts, who);
        proof {
            if r.is_none() && self@.knows(who) {
                let k = self@.place_of(who);
                assert(self.accounts@[k].who == who);
            }
        }
        r
    }

    /// The place of the record of `who`, made first where there is none.
    /// Nothing that can be asked of the ledger changes.
    pub(crate) fn account_of(&mut self, who: Address) -> (i: usize)
        requires
            old(self)@.structure_wf(),
        ensures
            final(self)@.structure_wf(),
            i < final(self)@.holders.len(),
            final(self).accounts@.len() == final(self)@.holders.len(),
            final(self)@.holders[i as int].who == who,
            final(self)@.same_but_holders(old(self)@),
            final(self)@.same_holdings(old(self)@),
            final(self)@.same_balances(old(self)@),
            final(self)@.total_balance() == old(self)@.total_balance(),
            old(self)@.holders.len() <= final(self)@.holders.len(),
            forall|k: int|
                0 <= k < old(self)@.holders.len() ==> (#[trigger] final(self)@.holders[k]) == old(
                    self,
                )@.holders[k],
    {
        match self.find_account(who) {
            Some(i) => i,
            None => {
                let i = self.accounts.len();
                self.accounts.push(Account { who, balance: 0, ids: Vec::new() });
                proof {
                    assert(self@.holders =~= old(self)@.holders.push(
                        Holder { who, balance: 0, ids: Seq::empty() },
                    ));
                    assert(self@.assets =~= old(self)@.assets);
                    assert(self@.index =~= old(self)@.index);
                    lemma_record_added(old(self)@, self@, who);
                }
                i
            },
        }
    }

    /// Sets the balance of the record at `i`.
    pub(crate) fn set_balance(&mut self, i: usize, balance: i128)
        requires
            old(self)@.structure_wf(),
            i < old(self)@.holders.len(),
            balance >= 0,
        ensures
            final(self)@.structure_wf(),
            final(self)@.holders == old(self)@.holders.update(
                i as int,
                Holder { balance: balance as int, ..old(self)@.holders[i as int] },
            ),
            final(self)@.same_but_holders(old(self)@),
            final(self)@.same_holdings(old(self)@),
            final(self)@.total_balance() == old(self)@.total_balance() - old(self)@.holders[i as int].balance
                + balance,
            forall|a: Address|
                final(self)@.balance_of(a) == if a == old(self)@.holders[i as int].who {
                    balance as int
                } else {
                    old(self)@.balance_of(a)
                },
    {
        self.accounts[i].balance = balance;
        proof {
            assert(self@.holders =~= old(self)@.holders.update(
                i as int,
                Holder { balance: balance as int, ..old(self)@.holders[i as int] },
            ));
            assert(self@.assets =~= old(self)@.assets);
            assert(self@.index =~= old(self)@.index);
            lemma_balance_set(old(self)@, self@, i as int, balance as int);
        }
    }

    /// The balance of the record at `i`.
    pub(crate) fn balance_at(&self, i: usize) -> (balance: i128)
        requires
            i < self@.holders.len(),
        ensures
            balance == self@.holders[i as int].balance,
    {
        self.accounts[i].balance
    }
}

} // verus!
