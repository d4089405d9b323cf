//! The marketplace: offers to sell an asset, their withdrawal, and sales.

use vstd::prelude::*;
use crate::address::{Address, Auth};
use crate::error::Error;
use crate::holders::{lemma_place, lemma_same_actors};
use crate::list::{copy_vec, lemma_appended, lemma_removed, vec_remove_once};
use crate::model::{Asset, Ledger, Listing, NFT_MAX};
use crate::registry::lemma_settings_changed;
use crate::state::SimpleTokenNft;

verus! {

impl Ledger {
    /// Why a new listing fee is refused, if it is.
    pub open spec fn listing_fee_set_error(self, auth: Set<Address>, fee: i128) -> Option<Error> {
        if !self.initialized {
            Some(Error::NotInited)
        } else if fee < 0 {
            Some(Error::BadFee)
        } else if !auth.contains(self.admin) {
            Some(Error::Unauthorized)
        } else {
            None
        }
    }

    /// Why an offer is refused, if it is.
    pub open spec fn list_error(self, auth: Set<Address>, seller: Address, id: u32, price: i128) -> Option<
        Error,
    > {
        if !self.initialized {
            Some(Error::NotInited)
        } else if !auth.contains(seller) {
            Some(Error::Unauthorized)
        } else if price <= 0 {
            Some(Error::BadPrice)
        } else if !self.has_asset(id) {
            Some(Error::NftNotFound)
        } else if self.assets[id as int].owner != seller {
            Some(Error::NotOwner)
        } else if self.listing(id).is_some() {
            Some(Error::AlreadyListed)
        } else if self.listing_fee > 0 && self.balance_of(seller) < self.listing_fee {
            Some(Error::InsufficientForFee)
        } else {
            None
        }
    }

    /// Whether `post` is `self` after `seller` put asset `id` on offer at
    /// `price`: the offer stands, the id is the last of those on offer, and
    /// the listing fee went from the seller to the administrator, whoever
    /// they are.
    pub open spec fn listed(self, post: Ledger, seller: Address, id: u32, price: i128) -> bool {
        &&& post.same_settings(self)
        &&& post.assets == self.assets
        &&& post.index == self.index
        &&& post.same_holdings(self)
        &&& forall|a: Address|
            post.balance_of(a) == self.balance_of(a) - (if a == seller {
                self.listing_fee
            } else {
                0
            }) + (if a == self.admin {
                self.listing_fee
            } else {
                0
            })
        &&& post.listings == self.listings.update(id as int, Some(Listing { seller, price }))
        &&& post.listed_ids == self.listed_ids.push(id)
    }

    /// Why the withdrawal of an offer is refused, if it is.
    pub open spec fn cancel_error(self, auth: Set<Address>, seller: Address, id: u32) -> Option<Error> {
        if !self.initialized {
            Some(Error::NotInited)
        } else if !auth.contains(seller) {
            Some(Error::Unauthorized)
        } else if self.listing(id).is_none() {
            Some(Error::NotListed)
        } else if self.listing(id).unwrap().seller != seller {
            Some(Error::NotSeller)
        } else {
            None
        }
    }

    /// Whether `post` is `self` without the offer for asset `id`, and as
    /// `self` in all but the market.
    pub open spec fn cancelled(self, post: Ledger, id: u32) -> bool {
        &&& post.same_settings(self)
        &&& post.holders == self.holders
        &&& post.assets == self.assets
        &&& post.index == self.index
        &&& post.listings == self.listings.update(id as int, None)
        &&& post.listed_ids == self.listed_ids.remove_value(id)
    }

    /// Why a purchase is refused, if it is.
    pub open spec fn buy_error(self, auth: Set<Address>, buyer: Address, id: u32) -> Option<Error> {
        if !self.initialized {
            Some(Error::NotInited)
        } else if !auth.contains(buyer) {
            Some(Error::Unauthorized)
        } else if self.listing(id).is_none() {
            Some(Error::NotListed)
        } else if self.listing(id).unwrap().seller == buyer {
            Some(Error::SelfBuy)
        } else if self.balance_of(buyer) < self.listing(id).unwrap().price {
            Some(Error::InsufficientBalance)
        } else {
            None
        }
    }

    /// Whether `post` is `self` after `buyer` bought asset `id`: the price
    /// went from the buyer to the seller, the asset from the seller to the
    /// buyer, and the offer is gone.
    pub open spec fn bought(self, post: Ledger, buyer: Address, id: u32) -> bool {
        let offer = self.listing(id).unwrap();
        &&& post.same_settings(self)
        &&& post.index == self.index
        &&& forall|a: Address|
            post.balance_of(a) == self.balance_of(a) - (if a == buyer {
                offer.price as int
            } else {
                0
            }) + (if a == offer.seller {
                offer.price as int
            } else {
                0
            })
        &&& post.assets == self.assets.update(
            id as int,
            Asset { owner: buyer, pixels: self.assets[id as int].pixels },
        )
        &&& forall|a: Address|
            post.ids_of(a) == if a == offer.seller {
                self.ids_of(a).remove_value(id)
            } else if a == buyer {
                self.ids_of(a).push(id)
            } else {
                self.ids_of(a)
            }
        &&& post.listings == self.listings.update(id as int, None)
        &&& post.listed_ids == self.listed_ids.remove_value(id)
    }
}

/// In a well-formed ledger an asset without an offer is not among the ids
/// on offer.
pub proof fn lemma_unlisted_absent(l: Ledger, id: u32)
    requires
        l.market_wf(),
        l.listing(id).is_none(),
    ensures
        !l.listed_ids.contains(id),
{
    if l.listed_ids.contains(id) {
        let k = choose|k: int| 0 <= k < l.listed_ids.len() && l.listed_ids[k] == id;
        assert(l.listing(l.listed_ids[k]).is_some());
    }
}

/// A ledger that differs from `pre` in the market only is well formed where
/// its market is.
pub proof fn lemma_market_changed(pre: Ledger, post: Ledger)
    requires
        pre.structure_wf(),
        post.market_wf(),
        post.same_settings(pre),
        post.holders == pre.holders,
        post.assets == pre.assets,
        post.index == pre.index,
    ensures
        post.structure_wf(),
        post.total_balance() == pre.total_balance(),
{
    assert forall|a: Address| post.ids_of(a) == pre.ids_of(a) by {
        lemma_same_actors(pre, post, a);
    }
    assert(post.ownership_wf()) by {
        assert forall|a: int| 0 <= a < post.assets.len() implies post.ids_of(
            (#[trigger] post.assets[a]).owner,
        ).contains(a as u32) by {
            assert(pre.ids_of(pre.assets[a].owner).contains(a as u32));
        }
    }
    assert(post.index_wf()) by {
        assert forall|pos: int, color: int| post.search(pos, color) == pre.search(pos, color) by {}
    }
}

/// The market of a ledger that differs from `pre` in one further offer,
/// for an asset without one, by its owner and at a positive price.
pub proof fn lemma_offer_added(pre: Ledger, post: Ledger, id: u32, offer: Listing)
    requires
        pre.market_wf(),
        pre.assets.len() <= NFT_MAX,
        id < pre.assets.len(),
        pre.listing(id).is_none(),
        offer.seller == pre.assets[id as int].owner,
        offer.price > 0,
        post.assets == pre.assets,
        post.listings == pre.listings.update(id as int, Some(offer)),
        post.listed_ids == pre.listed_ids.push(id),
    ensures
        post.market_wf(),
{
    lemma_unlisted_absent(pre, id);
    lemma_appended(pre.listed_ids, id);
    assert forall|a: int| 0 <= a < post.listings.len() implies match #[trigger] post.listings[a] {
        Some(l) => l.seller == post.assets[a].owner && l.price > 0 && post.listed_ids.contains(a as u32),
        None => true,
    } by {
        if a != id {
            assert(pre.listings[a] == post.listings[a]);
            if pre.listings[a].is_some() {
                assert(pre.listed_ids.contains(a as u32));
            }
        }
    }
    assert forall|k: int| 0 <= k < post.listed_ids.len() implies post.listing(
        #[trigger] post.listed_ids[k],
    ).is_some() by {
        if k < pre.listed_ids.len() {
            assert(pre.listing(pre.listed_ids[k]).is_some());
        }
    }
}

/// The market of a ledger that differs from `pre` in that the offer for
/// asset `id` is gone. The owner of that asset may differ too.
pub proof fn lemma_offer_removed(pre: Ledger, post: Ledger, id: u32)
    requires
        pre.market_wf(),
        pre.assets.len() <= NFT_MAX,
        pre.listing(id).is_some(),
        post.assets.len() == pre.assets.len(),
        forall|a: int| 0 <= a < pre.assets.len() && a != id ==> (#[trigger] post.assets[a]).owner == pre.assets[a].owner,
        post.listings == pre.listings.update(id as int, None),
        post.listed_ids == pre.listed_ids.remove_value(id),
    ensures
        post.market_wf(),
{
    assert(pre.listings[id as int].is_some());
    assert(pre.listed_ids.contains(id));
    lemma_removed(pre.listed_ids, id);
    assert forall|a: int| 0 <= a < post.listings.len() implies match #[trigger] post.listings[a] {
        Some(l) => l.seller == post.assets[a].owner && l.price > 0 && post.listed_ids.contains(a as u32),
        None => true,
    } by {
        if a != id {
            assert(pre.listings[a] == post.listings[a]);
            if pre.listings[a].is_some() {
                assert(pre.listed_ids.contains(a as u32));
                assert(post.assets[a].owner == pre.assets[a].owner);
            }
        }
    }
    assert forall|k: int| 0 <= k < post.listed_ids.len() implies post.listing(
        #[trigger] post.listed_ids[k],
    ).is_some() by {
        let x = post.listed_ids[k];
        assert(post.listed_ids.contains(x));
        assert(pre.listed_ids.contains(x));
        let k0 = choose|k0: int| 0 <= k0 < pre.listed_ids.len() && pre.listed_ids[k0] == x;
        assert(pre.listing(pre.listed_ids[k0]).is_some());
    }
}

impl SimpleTokenNft {
    /// Sets the fee that a seller pays to list an asset. The administrator
    /// must consent.
    pub fn listing_fee_set(&mut self, auth: &Auth, fee: i128) -> (r: Result<(), Error>)
        requires
            old(self)@.wf(),
        ensures
            final(self)@.wf(),
            match r {
                Ok(()) => {
                    &&& old(self)@.listing_fee_set_error(auth@, fee).is_none()
                    &&& final(self)@ == (Ledger { listing_fee: fee as int, ..old(self)@ })
                },
                Err(e) => {
                    &&& old(self)@.listing_fee_set_error(auth@, fee) == Some(e)
                    &&& *final(self) == *old(self)
                },
            },
    {
        if !self.initialized {
            return Err(Error::NotInited);
        }
        if fee < 0 {
            return Err(Error::BadFee);
        }
        if !auth.approves(self.admin) {
            return Err(Error::Unauthorized);
        }
        self.listing_fee = fee;
        proof {
            let pre = old(self)@;
            let post = self@;
            assert(post == (Ledger { listing_fee: fee as int, ..pre }));
            lemma_settings_changed(pre, post);
        }
        Ok(())
    }

    /// The fee that a seller pays to list an asset: zero before the ledger
    /// is initialised.
    pub fn listing_fee_get(&self) -> (fee: i128)
        ensures
            fee == self@.listing_fee,
    {
        self.listing_fee
    }

    /// Puts asset `id` on offer at `price`. The seller must consent and own
    /// the asset, and pays the listing fee to the administrator.
    pub fn market_list_nft(&mut self, auth: &Auth, seller: Address, id: u32, price: i128) -> (r: Result<
        (),
        Error,
    >)
        requires
            old(self)@.wf(),
        ensures
            final(self)@.wf(),
            match r {
                Ok(()) => {
                    &&& old(self)@.list_error(auth@, seller, id, price).is_none()
                    &&& old(self)@.listed(final(self)@, seller, id, price)
                },
                Err(e) => {
                    &&& old(self)@.list_error(auth@, seller, id, price) == Some(e)
                    &&& *final(self) == *old(self)
                },
            },
    {
        if !self.initialized {
            return Err(Error::NotInited);
        }
        if !auth.approves(seller) {
            return Err(Error::Unauthorized);
        }
        if price <= 0 {
            return Err(Error::BadPrice);
        }
        if id as usize >= self.assets.len() {
            return Err(Error::NftNotFound);
        }
        if self.assets[id as usize].owner != seller {
            return Err(Error::NotOwner);
        }
        if self.listings[id as usize].is_some() {
            return Err(Error::AlreadyListed);
        }
        let fee = self.listing_fee;
        if fee > 0 {
            let payer = match self.find_account(seller) {
                Some(i) => i,
                None => {
                    return Err(Error::InsufficientForFee);
                },
            };
            proof {
                lemma_place(self@, payer as int);
            }
            let seller_bal = self.balance_at(payer);
            if seller_bal < fee {
                return Err(Error::InsufficientForFee);
            }
            self.set_balance(payer, seller_bal - fee);
            self.pay(self.admin, fee);
        }
        let ghost mid = self@;
        self.listings[id as usize] = Some(Listing { seller, price });
        self.listed_ids.push(id);
        proof {
            let post = self@;
            assert(post.holders =~= mid.holders);
            assert(post.assets =~= mid.assets);
            assert(post.index =~= mid.index);
            lemma_offer_added(mid, post, id, Listing { seller, price });
            lemma_market_changed(mid, post);
            assert forall|a: Address|
                post.ids_of(a) == old(self)@.ids_of(a) && post.balance_of(a) == mid.balance_of(a) by {
                lemma_same_actors(mid, post, a);
                assert(mid.ids_of(a) == old(self)@.ids_of(a));
            }
        }
        Ok(())
    }

    /// Withdraws the offer for asset `id`. The seller must consent. The
    /// listing fee is not returned.
    pub fn market_cancel(&mut self, auth: &Auth, seller: Address, id: u32) -> (r: Result<(), Error>)
        requires
            old(self)@.wf(),
        ensures
            final(self)@.wf(),
            match r {
                Ok(()) => {
                    &&& old(self)@.cancel_error(auth@, seller, id).is_none()
                    &&& old(self)@.cancelled(final(self)@, id)
                },
                Err(e) => {
                    &&& old(self)@.cancel_error(auth@, seller, id) == Some(e)
                    &&& *final(self) == *old(self)
                },
            },
    {
        if !self.initialized {
            return Err(Error::NotInited);
        }
        if !auth.approves(seller) {
            return Err(Error::Unauthorized);
        }
        let offer = match self.offer_for(id) {
            Some(l) => l,
            None => {
                return Err(Error::NotListed);
            },
        };
        if offer.seller != seller {
            return Err(Error::NotSeller);
        }
        self.remove_offer(id);
        proof {
            lemma_market_changed(old(self)@, self@);
        }
        Ok(())
    }

    /// The offer for asset `id`, if one stands.
    fn offer_for(&self, id: u32) -> (r: Option<Listing>)
        ensures
            r == self@.listing(id),
    {
        if (id as usize) < self.listings.len() {
            self.listings[id as usize]
        } else {
            None
        }
    }

    /// Takes the offer for asset `id` off the market.
    fn remove_offer(&mut self, id: u32)
        requires
            old(self)@.market_wf(),
            old(self)@.assets.len() <= NFT_MAX,
            old(self)@.listing(id).is_some(),
        ensures
            final(self)@.market_wf(),
            old(self)@.cancelled(final(self)@, id),
    {
        self.listings[id as usize] = None;
        vec_remove_once(&mut self.listed_ids, id);
        proof {
            let pre = old(self)@;
            let post = self@;
            assert(post.holders =~= pre.holders);
            assert(post.assets =~= pre.assets);
            assert(post.index =~= pre.index);
            lemma_offer_removed(pre, post, id);
        }
    }

    /// Buys asset `id` at the price of its offer. The buyer must consent
    /// and cover the price, which goes to the seller.
    pub fn market_buy(&mut self, auth: &Auth, buyer: Address, id: u32) -> (r: Result<(), Error>)
        requires
            old(self)@.wf(),
        ensures
            final(self)@.wf(),
            match r {
                Ok(()) => {
                    &&& old(self)@.buy_error(auth@, buyer, id).is_none()
                    &&& old(self)@.bought(final(self)@, buyer, id)
                },
                Err(e) => {
                    &&& old(self)@.buy_error(auth@, buyer, id) == Some(e)
                    &&& *final(self) == *old(self)
                },
            },
    {
        if !self.initialized {
            return Err(Error::NotInited);
        }
        if !auth.approves(buyer) {
            return Err(Error::Unauthorized);
        }
        let offer = match self.offer_for(id) {
            Some(l) => l,
            None => {
                return Err(Error::NotListed);
            },
        };
        if buyer == offer.seller {
            return Err(Error::SelfBuy);
        }
        let payer = match self.find_account(buyer) {
            Some(i) => i,
            None => {
                return Err(Error::InsufficientBalance);
            },
        };
        proof {
            lemma_place(self@, payer as int);
            assert(self@.listings[id as int] == Some(offer));
        }
        let buyer_bal = self.balance_at(payer);
        if buyer_bal < offer.price {
            return Err(Error::InsufficientBalance);
        }
        self.set_balance(payer, buyer_bal - offer.price);
        self.pay(offer.seller, offer.price);
        let ghost paid = self@;
        self.remove_offer(id);
        let ghost unlisted = self@;
        proof {
            lemma_market_changed(paid, unlisted);
            assert forall|a: Address|
                unlisted.ids_of(a) == old(self)@.ids_of(a) && unlisted.balance_of(a) == paid.balance_of(
                    a,
                ) by {
                lemma_same_actors(paid, unlisted, a);
                assert(paid.ids_of(a) == old(self)@.ids_of(a));
            }
        }
        let moved = self.nft_transfer_internal(offer.seller, buyer, id);
        proof {
            assert(moved.is_ok());
        }
        Ok(())
    }

    /// The seller and the price of the offer for asset `id`, if one stands.
    pub fn market_get(&self, id: u32) -> (r: Option<(Address, i128)>)
        ensures
            r == match self@.listing(id) {
                Some(l) => Some((l.seller, l.price)),
                None => None,
            },
    {
        match self.offer_for(id) {
            Some(l) => Some((l.seller, l.price)),
            None => None,
        }
    }

    /// The ids of the assets on offer, in the order they were listed.
    pub fn market_list_ids(&self) -> (ids: Vec<u32>)
        ensures
            ids@ == self@.listed_ids,
    {
        copy_vec(&self.listed_ids)
    }
}

} // verus!
