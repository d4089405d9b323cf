//! What holds of every well-formed ledger, and of ledgers that an
//! operation relates.

use vstd::prelude::*;
use crate::address::Address;
use crate::error::Error;
use crate::holders::lemma_place;
use crate::model::{Ledger, Listing};
use crate::registry::{lemma_not_in_other_list, lemma_owner_known};

verus! {

/// Ownership and index agree. The id of every asset stands exactly once in
/// the list of the asset's owner and in no other actor's list.
pub proof fn lemma_owner_lists_asset(l: Ledger, id: u32)
    requires
        l.wf(),
        l.has_asset(id),
    ensures
        l.ids_of(l.assets[id as int].owner).contains(id),
        forall|j: int, k: int|
            0 <= j < k < l.ids_of(l.assets[id as int].owner).len() ==> !(l.ids_of(
                l.assets[id as int].owner,
            )[j] == id && l.ids_of(l.assets[id as int].owner)[k] == id),
        forall|a: Address| a != l.assets[id as int].owner ==> !l.ids_of(a).contains(id),
{
    let owner = l.assets[id as int].owner;
    lemma_owner_known(l, id as int);
    let i = l.place_of(owner);
    lemma_place(l, i);
    assert(l.holders[i].ids.no_duplicates());
    assert forall|a: Address| a != owner implies !l.ids_of(a).contains(id) by {
        if l.knows(a) {
            let j = l.place_of(a);
            lemma_place(l, j);
            lemma_not_in_other_list(l, j, id as int);
        }
    }
}

/// Ownership and index agree, read the other way. Every id in an actor's
/// list is the id of an asset that names this actor as its owner.
pub proof fn lemma_listed_asset_is_owned(l: Ledger, who: Address, k: int)
    requires
        l.wf(),
        0 <= k < l.ids_of(who).len(),
    ensures
        l.has_asset(l.ids_of(who)[k]),
        l.assets[l.ids_of(who)[k] as int].owner == who,
{
    let i = l.place_of(who);
    lemma_place(l, i);
    assert(l.holders[i].ids[k] < l.assets.len());
}

/// The lookup by content finds every asset: no two assets share a content.
pub proof fn lemma_content_names_asset(l: Ledger, id: u32)
    requires
        l.wf(),
        l.has_asset(id),
    ensures
        l.find_by_value(l.assets[id as int].pixels) == Some(id),
{
    let pixels = l.assets[id as int].pixels;
    assert(l.has_content(pixels));
    let j = choose|j: int| 0 <= j < l.assets.len() && (#[trigger] l.assets[j]).pixels == pixels;
    if j < id {
        assert(l.assets[j].pixels != l.assets[id as int].pixels);
    } else if id < j {
        assert(l.assets[id as int].pixels != l.assets[j].pixels);
    }
}

/// Uniqueness. After a successful mint the lookup by content gives the new
/// asset's id, and a second mint of the same content is refused: as a
/// duplicate where the administrator consents, as unauthorised where not.
pub proof fn lemma_second_mint_refused(
    pre: Ledger,
    post: Ledger,
    first: Set<Address>,
    to: Address,
    pixels: Seq<u8>,
    id: u32,
    second: Set<Address>,
)
    requires
        pre.wf(),
        post.wf(),
        pre.mint_error(first, pixels).is_none(),
        pre.minted(post, to, pixels, id),
    ensures
        post.find_by_value(pixels) == Some(id),
        post.mint_error(second, pixels) == Some(
            if second.contains(post.admin) {
                Error::DuplicateValue
            } else {
                Error::Unauthorized
            },
        ),
{
    assert(post.assets[id as int].pixels == pixels);
    lemma_content_names_asset(post, id);
}

/// An offer is always by the asset's owner and at a positive price, and its
/// asset is among the ids on offer: no offer goes stale.
pub proof fn lemma_offer_is_live(l: Ledger, id: u32)
    requires
        l.wf(),
        l.listing(id).is_some(),
    ensures
        l.has_asset(id),
        l.listing(id).unwrap().seller == l.assets[id as int].owner,
        l.listing(id).unwrap().price > 0,
        l.listed_ids.contains(id),
        l.initialized,
{
    assert(l.listings[id as int].is_some());
}

/// The ids on offer are exactly the ids of the assets with an offer, each
/// once.
pub proof fn lemma_listed_ids_mirror_offers(l: Ledger, id: u32)
    requires
        l.wf(),
    ensures
        l.listed_ids.contains(id) == l.listing(id).is_some(),
        l.listed_ids.no_duplicates(),
{
    if l.listed_ids.contains(id) {
        let k = choose|k: int| 0 <= k < l.listed_ids.len() && l.listed_ids[k] == id;
        assert(l.listing(l.listed_ids[k]).is_some());
    }
    if l.listing(id).is_some() {
        assert(l.listings[id as int].is_some());
    }
}

/// Listing and transfer exclude each other. While an offer stands for an
/// asset, every direct transfer of it is refused: as listed, where the
/// sender consents and is not the recipient.
pub proof fn lemma_listed_asset_is_frozen(
    l: Ledger,
    auth: Set<Address>,
    from: Address,
    to: Address,
    id: u32,
)
    requires
        l.wf(),
        l.listing(id).is_some(),
    ensures
        l.nft_transfer_error(auth, from, to, id).is_some(),
        auth.contains(from) && from != to ==> l.nft_transfer_error(auth, from, to, id) == Some(
            Error::Listed,
        ),
{
    lemma_offer_is_live(l, id);
}

/// A cancel or a purchase clears the offer, after which the owner can hand
/// the asset over again.
pub proof fn lemma_cleared_asset_moves(
    pre: Ledger,
    post: Ledger,
    buyer: Address,
    id: u32,
    auth: Set<Address>,
    to: Address,
)
    requires
        pre.wf(),
        post.wf(),
        pre.listing(id).is_some(),
        pre.cancelled(post, id) || pre.bought(post, buyer, id),
        auth.contains(post.assets[id as int].owner),
        to != post.assets[id as int].owner,
    ensures
        post.listing(id).is_none(),
        !post.listed_ids.contains(id),
        post.nft_transfer_error(auth, post.assets[id as int].owner, to, id).is_none(),
{
    lemma_offer_is_live(pre, id);
    lemma_listed_ids_mirror_offers(post, id);
}

/// Only a cancel or a purchase of the asset clears its offer: a transfer of
/// funds, a mint, an entry into the search index, a change of a setting, a
/// move of an asset, an offer for an asset that had none, and a cancel or
/// purchase of another asset on offer leave it standing.
pub proof fn lemma_offer_stands(
    pre: Ledger,
    post: Ledger,
    id: u32,
    offer: Listing,
    from: Address,
    to: Address,
    amount: i128,
    tos: Seq<Address>,
    amounts: Seq<i128>,
    pixels: Seq<u8>,
    other: u32,
)
    requires
        pre.wf(),
        pre.listing(id) == Some(offer),
        ({
            ||| pre.transferred(post, from, to, amount)
            ||| pre.batch_transferred(post, from, tos, amounts)
            ||| pre.minted(post, to, pixels, other)
            ||| pre.same_but_index(post)
            ||| post.same_market(pre) && post.assets == pre.assets
            ||| pre.asset_moved(post, from, to, other)
            ||| pre.has_asset(other) && pre.listing(other).is_none() && pre.listed(
                post,
                from,
                other,
                amount,
            )
            ||| other != id && pre.listing(other).is_some() && pre.cancelled(post, other)
            ||| other != id && pre.listing(other).is_some() && pre.bought(post, to, other)
        }),
    ensures
        post.listing(id) == Some(offer),
{
    lemma_offer_is_live(pre, id);
    assert(pre.listings[id as int] == Some(offer));
}

} // verus!
