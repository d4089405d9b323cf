//! No operation makes or destroys funds: what one actor pays, others get.

use vstd::prelude::*;
use crate::address::Address;
use crate::holders::lemma_place;
use crate::model::{sum_balances, Ledger, TOTAL_SUPPLY_RAW};
use crate::token::{received, sum_amounts};

verus! {

/// The sum of the balances that `l` gives the first `n` of `actors`.
pub open spec fn balance_sum(l: Ledger, actors: Seq<Address>, n: int) -> int
    decreases n,
{
    if n <= 0 {
        0
    } else {
        balance_sum(l, actors, n - 1) + l.balance_of(actors[n - 1])
    }
}

/// The sum of the balances that `l` gives `actors`.
pub open spec fn total_over(l: Ledger, actors: Seq<Address>) -> int {
    balance_sum(l, actors, actors.len() as int)
}

/// Whether `actors` names nobody twice and names everybody of whom `l`
/// keeps a record.
pub open spec fn covers(actors: Seq<Address>, l: Ledger) -> bool {
    &&& actors.no_duplicates()
    &&& forall|a: Address| l.knows(a) ==> actors.contains(a)
}

/// The sum of `change` over the first `n` of `actors`.
pub open spec fn change_sum(change: spec_fn(Address) -> int, actors: Seq<Address>, n: int) -> int
    decreases n,
{
    if n <= 0 {
        0
    } else {
        change_sum(change, actors, n - 1) + change(actors[n - 1])
    }
}

/// The change that gives `amount` to `who` and nothing to anybody else.
pub open spec fn only(who: Address, amount: int) -> spec_fn(Address) -> int {
    |a: Address|
        if a == who {
            amount
        } else {
            0
        }
}

/// Where every balance of `post` is that of `pre` plus `change`, the sums
/// differ by the sum of `change`.
pub proof fn lemma_sum_shifts(
    pre: Ledger,
    post: Ledger,
    change: spec_fn(Address) -> int,
    actors: Seq<Address>,
    n: int,
)
    requires
        0 <= n <= actors.len(),
        forall|a: Address| post.balance_of(a) == pre.balance_of(a) + #[trigger] change(a),
    ensures
        balance_sum(post, actors, n) == balance_sum(pre, actors, n) + change_sum(change, actors, n),
    decreases n,
{
    if n > 0 {
        lemma_sum_shifts(pre, post, change, actors, n - 1);
        assert(post.balance_of(actors[n - 1]) == pre.balance_of(actors[n - 1]) + change(actors[n - 1]));
    }
}

/// A change to one actor sums to its amount where the actor is named, and
/// to nothing where not.
pub proof fn lemma_change_of_one(who: Address, amount: int, actors: Seq<Address>, n: int)
    requires
        actors.no_duplicates(),
        0 <= n <= actors.len(),
    ensures
        change_sum(only(who, amount), actors, n) == if actors.take(n).contains(who) {
            amount
        } else {
            0
        },
    decreases n,
{
    if n > 0 {
        lemma_change_of_one(who, amount, actors, n - 1);
        let shorter = actors.take(n - 1);
        let longer = actors.take(n);
        assert(longer[n - 1] == actors[n - 1]);
        if shorter.contains(who) {
            let k = choose|k: int| 0 <= k < shorter.len() && shorter[k] == who;
            assert(longer[k] == who);
            assert(actors[k] == who);
            assert(actors[n - 1] != who);
        } else if actors[n - 1] != who {
            if longer.contains(who) {
                let k = choose|k: int| 0 <= k < longer.len() && longer[k] == who;
                assert(shorter[k] == who);
            }
        }
    } else {
        assert(actors.take(0) =~= Seq::<Address>::empty());
    }
}

/// The sum of a change that is the sum of two changes is the sum of their
/// sums.
pub proof fn lemma_change_adds(
    both: spec_fn(Address) -> int,
    one: spec_fn(Address) -> int,
    other: spec_fn(Address) -> int,
    actors: Seq<Address>,
    n: int,
)
    requires
        forall|a: Address| #[trigger] both(a) == one(a) + other(a),
    ensures
        change_sum(both, actors, n) == change_sum(one, actors, n) + change_sum(other, actors, n),
    decreases n,
{
    if n > 0 {
        lemma_change_adds(both, one, other, actors, n - 1);
        assert(both(actors[n - 1]) == one(actors[n - 1]) + other(actors[n - 1]));
    }
}

/// What the recipients of a batch receive sums to the sum of its amounts,
/// where every recipient is named.
pub proof fn lemma_received_sums(tos: Seq<Address>, amounts: Seq<i128>, actors: Seq<Address>)
    requires
        tos.len() == amounts.len(),
        actors.no_duplicates(),
        forall|i: int| 0 <= i < tos.len() ==> actors.contains(#[trigger] tos[i]),
    ensures
        change_sum(|a: Address| received(tos, amounts, a), actors, actors.len() as int) == sum_amounts(
            amounts,
        ),
    decreases tos.len(),
{
    let all = |a: Address| received(tos, amounts, a);
    let n = actors.len() as int;
    if tos.len() == 0 {
        lemma_change_of_nothing(all, actors, n);
    } else {
        let rest = |a: Address| received(tos.drop_last(), amounts.drop_last(), a);
        let last = only(tos.last(), amounts.last() as int);
        assert forall|i: int| 0 <= i < tos.drop_last().len() implies actors.contains(
            #[trigger] tos.drop_last()[i],
        ) by {
            assert(tos.drop_last()[i] == tos[i]);
        }
        lemma_received_sums(tos.drop_last(), amounts.drop_last(), actors);
        lemma_change_adds(all, rest, last, actors, n);
        lemma_change_of_one(tos.last(), amounts.last() as int, actors, n);
        assert(actors.take(n) =~= actors);
        assert(actors.contains(tos[tos.len() - 1]));
    }
}

/// A change that gives nothing to anybody sums to nothing.
pub proof fn lemma_change_of_nothing(change: spec_fn(Address) -> int, actors: Seq<Address>, n: int)
    requires
        forall|a: Address| #[trigger] change(a) == 0,
    ensures
        change_sum(change, actors, n) == 0,
    decreases n,
{
    if n > 0 {
        lemma_change_of_nothing(change, actors, n - 1);
        assert(change(actors[n - 1]) == 0);
    }
}

/// Three changes to one actor each sum to their amounts, where the three
/// actors are named.
pub proof fn lemma_change_of_three(
    change: spec_fn(Address) -> int,
    a1: Address,
    x1: int,
    a2: Address,
    x2: int,
    a3: Address,
    x3: int,
    actors: Seq<Address>,
)
    requires
        actors.no_duplicates(),
        actors.contains(a1),
        actors.contains(a2),
        actors.contains(a3),
        forall|a: Address| #[trigger] change(a) == only(a1, x1)(a) + only(a2, x2)(a) + only(a3, x3)(a),
    ensures
        change_sum(change, actors, actors.len() as int) == x1 + x2 + x3,
{
    let n = actors.len() as int;
    let first_two = |a: Address| only(a1, x1)(a) + only(a2, x2)(a);
    lemma_change_adds(change, first_two, only(a3, x3), actors, n);
    lemma_change_adds(first_two, only(a1, x1), only(a2, x2), actors, n);
    lemma_change_of_one(a1, x1, actors, n);
    lemma_change_of_one(a2, x2, actors, n);
    lemma_change_of_one(a3, x3, actors, n);
    assert(actors.take(n) =~= actors);
}

/// A transfer conserves funds. Over any actors that include the sender,
/// the recipient and the administrator, the balances sum to the same
/// before and after: the fee is handed on, never burnt or minted.
pub proof fn lemma_transfer_conserves(
    pre: Ledger,
    post: Ledger,
    from: Address,
    to: Address,
    amount: i128,
    actors: Seq<Address>,
)
    requires
        pre.transferred(post, from, to, amount),
        actors.no_duplicates(),
        actors.contains(from),
        actors.contains(to),
        actors.contains(pre.admin),
    ensures
        total_over(post, actors) == total_over(pre, actors),
{
    let paid = -(amount + pre.transfer_fee);
    let change = |a: Address|
        only(from, paid)(a) + only(to, amount as int)(a) + only(pre.admin, pre.transfer_fee)(a);
    lemma_change_of_three(change, from, paid, to, amount as int, pre.admin, pre.transfer_fee, actors);
    lemma_sum_shifts(pre, post, change, actors, actors.len() as int);
}

/// A batch of transfers conserves funds. Over any actors that include the
/// sender, every recipient and the administrator, the balances sum to the
/// same before and after.
pub proof fn lemma_batch_conserves(
    pre: Ledger,
    post: Ledger,
    from: Address,
    tos: Seq<Address>,
    amounts: Seq<i128>,
    actors: Seq<Address>,
)
    requires
        tos.len() == amounts.len(),
        pre.batch_transferred(post, from, tos, amounts),
        actors.no_duplicates(),
        actors.contains(from),
        actors.contains(pre.admin),
        forall|i: int| 0 <= i < tos.len() ==> actors.contains(#[trigger] tos[i]),
    ensures
        total_over(post, actors) == total_over(pre, actors),
{
    let n = actors.len() as int;
    let fees = pre.transfer_fee * tos.len();
    let paid = -(sum_amounts(amounts) + fees);
    let gains = |a: Address| received(tos, amounts, a);
    let dues = |a: Address| only(from, paid)(a) + only(pre.admin, fees)(a);
    let change = |a: Address| gains(a) + dues(a);
    lemma_received_sums(tos, amounts, actors);
    lemma_change_adds(change, gains, dues, actors, n);
    lemma_change_adds(dues, only(from, paid), only(pre.admin, fees), actors, n);
    lemma_change_of_one(from, paid, actors, n);
    lemma_change_of_one(pre.admin, fees, actors, n);
    assert(actors.take(n) =~= actors);
    lemma_sum_shifts(pre, post, change, actors, n);
}

/// An offer conserves funds. Over any actors that include the seller and
/// the administrator, the balances sum to the same before and after: the
/// listing fee is handed on.
pub proof fn lemma_offer_conserves(
    pre: Ledger,
    post: Ledger,
    seller: Address,
    id: u32,
    price: i128,
    actors: Seq<Address>,
)
    requires
        pre.listed(post, seller, id, price),
        actors.no_duplicates(),
        actors.contains(seller),
        actors.contains(pre.admin),
    ensures
        total_over(post, actors) == total_over(pre, actors),
{
    let n = actors.len() as int;
    let change = |a: Address| only(seller, -pre.listing_fee)(a) + only(pre.admin, pre.listing_fee)(a);
    lemma_change_adds(change, only(seller, -pre.listing_fee), only(pre.admin, pre.listing_fee), actors, n);
    lemma_change_of_one(seller, -pre.listing_fee, actors, n);
    lemma_change_of_one(pre.admin, pre.listing_fee, actors, n);
    assert(actors.take(n) =~= actors);
    lemma_sum_shifts(pre, post, change, actors, n);
}

/// A purchase conserves funds. Over any actors that include the buyer and
/// the seller, the balances sum to the same before and after.
pub proof fn lemma_purchase_conserves(
    pre: Ledger,
    post: Ledger,
    buyer: Address,
    id: u32,
    actors: Seq<Address>,
)
    requires
        pre.listing(id).is_some(),
        pre.bought(post, buyer, id),
        actors.no_duplicates(),
        actors.contains(buyer),
        actors.contains(pre.listing(id).unwrap().seller),
    ensures
        total_over(post, actors) == total_over(pre, actors),
{
    let n = actors.len() as int;
    let offer = pre.listing(id).unwrap();
    let change = |a: Address| only(buyer, -offer.price)(a) + only(offer.seller, offer.price as int)(a);
    lemma_change_adds(change, only(buyer, -offer.price), only(offer.seller, offer.price as int), actors, n);
    lemma_change_of_one(buyer, -offer.price, actors, n);
    lemma_change_of_one(offer.seller, offer.price as int, actors, n);
    assert(actors.take(n) =~= actors);
    lemma_sum_shifts(pre, post, change, actors, n);
}

/// The ledger that keeps the first `k` records of `l` only.
pub open spec fn first_records(l: Ledger, k: int) -> Ledger {
    Ledger { holders: l.holders.take(k), ..l }
}

/// Over actors that cover the first `k` records, the balances that those
/// records give sum to what the records hold.
proof fn lemma_total_of_records(l: Ledger, actors: Seq<Address>, k: int)
    requires
        l.holders_wf(),
        covers(actors, l),
        0 <= k <= l.holders.len(),
    ensures
        total_over(first_records(l, k), actors) == sum_balances(l.holders.take(k)),
    decreases k,
{
    let n = actors.len() as int;
    let some = first_records(l, k);
    if k == 0 {
        lemma_nobody_has_funds(some, actors, n);
    } else {
        let fewer = first_records(l, k - 1);
        let last = l.holders[k - 1];
        lemma_total_of_records(l, actors, k - 1);
        assert(l.holders.take(k).drop_last() =~= l.holders.take(k - 1));
        assert(some.holders_wf());
        assert(fewer.holders_wf());
        lemma_place(some, k - 1);
        assert(!fewer.knows(last.who)) by {
            if fewer.knows(last.who) {
                let j = fewer.place_of(last.who);
                assert(l.holders[j].who == l.holders[k - 1].who);
            }
        }
        assert forall|a: Address| some.balance_of(a) == fewer.balance_of(a) + #[trigger] only(
            last.who,
            last.balance,
        )(a) by {
            if a != last.who {
                if fewer.knows(a) {
                    let j = fewer.place_of(a);
                    lemma_place(fewer, j);
                    assert(some.holders[j] == fewer.holders[j]);
                    lemma_place(some, j);
                } else if some.knows(a) {
                    let j = some.place_of(a);
                    assert(fewer.holders[j].who == a);
                }
            }
        }
        lemma_sum_shifts(fewer, some, only(last.who, last.balance), actors, n);
        lemma_change_of_one(last.who, last.balance, actors, n);
        assert(actors.take(n) =~= actors);
        lemma_place(l, k - 1);
        assert(actors.contains(last.who));
    }
}

/// In a ledger without records, any actors' balances sum to nothing.
proof fn lemma_nobody_has_funds(l: Ledger, actors: Seq<Address>, n: int)
    requires
        l.holders.len() == 0,
    ensures
        balance_sum(l, actors, n) == 0,
    decreases n,
{
    if n > 0 {
        lemma_nobody_has_funds(l, actors, n - 1);
        assert(!l.knows(actors[n - 1]));
    }
}

/// Supply conservation. Between any two operations on an initialised
/// ledger, the balances of any actors that include every actor with a
/// record, each named once, sum to the total supply; every other actor has
/// a balance of zero, and no balance is negative.
pub proof fn lemma_supply_conserved(l: Ledger, actors: Seq<Address>)
    requires
        l.wf(),
        l.initialized,
        covers(actors, l),
    ensures
        total_over(l, actors) == l.total_supply,
        l.total_supply == TOTAL_SUPPLY_RAW,
        forall|a: Address| !actors.contains(a) ==> l.balance_of(a) == 0,
        forall|a: Address| l.balance_of(a) >= 0,
{
    lemma_total_of_records(l, actors, l.holders.len() as int);
    assert(l.holders.take(l.holders.len() as int) =~= l.holders);
    assert(first_records(l, l.holders.len() as int) == l);
    assert forall|a: Address| l.balance_of(a) >= 0 by {
        if l.knows(a) {
            let i = l.place_of(a);
            assert(l.holders[i].balance >= 0);
        }
    }
}

} // verus!
