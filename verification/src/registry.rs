//! The asset registry: minting, the search index, transfers and queries.

use vstd::prelude::*;
use crate::address::{Address, Auth};
use crate::error::Error;
use crate::holders::{lemma_place, lemma_same_actors, lemma_sum_update};
use crate::list::{copy_vec, lemma_appended, lemma_removed, same_bytes, vec_remove_once};
use crate::model::{
    slot, valid_pixels, Asset, Holder, Ledger, NFT_COLORS, NFT_MAX, NFT_PIXELS, PALETTE_LEN,
};
use crate::state::{NftData, SimpleTokenNft};

verus! {

impl Ledger {
    /// Why a mint is refused, if it is.
    pub open spec fn mint_error(self, auth: Set<Address>, pixels: Seq<u8>) -> Option<Error> {
        if !self.initialized {
            Some(Error::NotInited)
        } else if !auth.contains(self.admin) {
            Some(Error::Unauthorized)
        } else if pixels.len() != NFT_PIXELS {
            Some(Error::PixelsLen81)
        } else if !valid_pixels(pixels) {
            Some(Error::PixelOutOfRange)
        } else if self.has_content(pixels) {
            Some(Error::DuplicateValue)
        } else if self.assets.len() >= NFT_MAX {
            Some(Error::NftMaxSupReached)
        } else {
            None
        }
    }

    /// Whether `post` differs from `self` in the search index only, and
    /// there in this: asset `id`, of content `pixels`, is appended to the
    /// list of each position from `start` up to, not including, `end`, under
    /// the colour it has there.
    pub open spec fn indexed(self, post: Ledger, id: u32, pixels: Seq<u8>, start: int, end: int) -> bool {
        &&& post.index.len() == self.index.len()
        &&& forall|pos: int, color: int|
            0 <= pos < NFT_PIXELS && 0 <= color < NFT_COLORS ==> #[trigger] post.search(pos, color) == if start
                <= pos < end && pixels[pos] == color {
                self.search(pos, color).push(id)
            } else {
                self.search(pos, color)
            }
    }

    /// Whether `post` is `self` after the mint of asset `id`, of content
    /// `pixels`, to `to`.
    pub open spec fn minted(self, post: Ledger, to: Address, pixels: Seq<u8>, id: u32) -> bool {
        &&& id == self.assets.len()
        &&& post.same_settings(self)
        &&& post.same_balances(self)
        &&& post.assets == self.assets.push(Asset { owner: to, pixels })
        &&& forall|a: Address|
            post.ids_of(a) == if a == to {
                self.ids_of(a).push(id)
            } else {
                self.ids_of(a)
            }
        &&& post.listings == self.listings.push(None)
        &&& post.listed_ids == self.listed_ids
        &&& if self.index_on_mint {
            self.indexed(post, id, pixels, 0, NFT_PIXELS as int)
        } else {
            post.index == self.index
        }
    }

    /// Why the indexing of a range of positions is refused, if it is.
    pub open spec fn index_range_error(self, auth: Set<Address>, id: u32, start: u32, end: u32) -> Option<
        Error,
    > {
        if !self.initialized {
            Some(Error::NotInited)
        } else if end > NFT_PIXELS || start >= end {
            Some(Error::BadRange)
        } else if !auth.contains(self.admin) {
            Some(Error::Unauthorized)
        } else if !self.has_asset(id) {
            Some(Error::NftNotFound)
        } else {
            None
        }
    }

    /// Whether `post` differs from `self` in the search index at most.
    pub open spec fn same_but_index(self, post: Ledger) -> bool {
        &&& post.same_settings(self)
        &&& post.holders == self.holders
        &&& post.assets == self.assets
        &&& post.same_market(self)
    }

    /// Why a direct transfer of an asset is refused, if it is.
    pub open spec fn nft_transfer_error(self, auth: Set<Address>, from: Address, to: Address, id: u32) -> Option<
        Error,
    > {
        if !self.initialized {
            Some(Error::NotInited)
        } else if !auth.contains(from) {
            Some(Error::Unauthorized)
        } else if from == to {
            Some(Error::SelfTransfer)
        } else if self.listing(id).is_some() {
            Some(Error::Listed)
        } else {
            self.move_error(from, to, id)
        }
    }

    /// Why a change of owner is refused, if it is.
    pub open spec fn move_error(self, from: Address, to: Address, id: u32) -> Option<Error> {
        if from == to {
            Some(Error::SelfTransfer)
        } else if !self.has_asset(id) {
            Some(Error::NftNotFound)
        } else if self.assets[id as int].owner != from {
            Some(Error::NotOwner)
        } else {
            None
        }
    }

    /// Whether `post` is `self` after asset `id` went from `from` to `to`:
    /// the asset names `to` as its owner, its id has left the list of `from`
    /// and stands at the end of the list of `to`. Balances, settings,
    /// contents, market and search index are as before.
    pub open spec fn asset_moved(self, post: Ledger, from: Address, to: Address, id: u32) -> bool {
        &&& post.same_settings(self)
        &&& post.same_balances(self)
        &&& post.same_market(self)
        &&& post.index == self.index
        &&& post.assets == self.assets.update(
            id as int,
            Asset { owner: to, pixels: self.assets[id as int].pixels },
        )
        &&& forall|a: Address|
            post.ids_of(a) == if a == from {
                self.ids_of(a).remove_value(id)
            } else if a == to {
                self.ids_of(a).push(id)
            } else {
                self.ids_of(a)
            }
    }
}

/// In a well-formed ledger the owner of an asset has a record, and its list
/// holds the asset's id.
pub proof fn lemma_owner_known(l: Ledger, id: int)
    requires
        l.holders_wf(),
        l.ownership_wf(),
        0 <= id < l.assets.len(),
    ensures
        l.knows(l.assets[id].owner),
        l.holders[l.place_of(l.assets[id].owner)].ids.contains(id as u32),
{
    assert(l.ids_of(l.assets[id].owner).contains(id as u32));
    let s = l.ids_of(l.assets[id].owner);
    let k = choose|k: int| 0 <= k < s.len() && s[k] == id as u32;
    assert(s.len() > 0);
}

/// The id of an asset stands in the list of its owner only.
pub proof fn lemma_not_in_other_list(l: Ledger, i: int, id: int)
    requires
        l.holders_wf(),
        l.ownership_wf(),
        0 <= id < l.assets.len(),
        0 <= i < l.holders.len(),
        l.holders[i].who != l.assets[id].owner,
    ensures
        !l.holders[i].ids.contains(id as u32),
{
    if l.holders[i].ids.contains(id as u32) {
        let k = choose|k: int| 0 <= k < l.holders[i].ids.len() && l.holders[i].ids[k] == id as u32;
        assert(l.assets[l.holders[i].ids[k] as int].owner == l.holders[i].who);
    }
}

/// A ledger that differs from `pre` in that asset `id` went from the record
/// at `fi` to the record at `ti`: it is well formed, and `pre.asset_moved`
/// holds of it.
pub proof fn lemma_asset_moved(pre: Ledger, post: Ledger, fi: int, ti: int, id: u32)
    requires
        pre.structure_wf(),
        0 <= fi < pre.holders.len(),
        0 <= ti < pre.holders.len(),
        fi != ti,
        id < pre.assets.len(),
        pre.assets[id as int].owner == pre.holders[fi].who,
        pre.listings[id as int].is_none(),
        post.holders == pre.holders.update(
            fi,
            Holder { ids: pre.holders[fi].ids.remove_value(id), ..pre.holders[fi] },
        ).update(ti, Holder { ids: pre.holders[ti].ids.push(id), ..pre.holders[ti] }),
        post.assets == pre.assets.update(
            id as int,
            Asset { owner: pre.holders[ti].who, pixels: pre.assets[id as int].pixels },
        ),
        post.same_settings(pre),
        post.same_market(pre),
        post.index == pre.index,
    ensures
        post.structure_wf(),
        post.total_balance() == pre.total_balance(),
        pre.asset_moved(post, pre.holders[fi].who, pre.holders[ti].who, id),
{
    let from = pre.holders[fi].who;
    let to = pre.holders[ti].who;
    let from_ids = pre.holders[fi].ids;
    let to_ids = pre.holders[ti].ids;
    let mid = pre.holders.update(fi, Holder { ids: from_ids.remove_value(id), ..pre.holders[fi] });
    lemma_sum_update(pre.holders, fi, Holder { ids: from_ids.remove_value(id), ..pre.holders[fi] });
    lemma_sum_update(mid, ti, Holder { ids: to_ids.push(id), ..pre.holders[ti] });
    assert(from != to);
    lemma_place(pre, fi);
    lemma_owner_known(pre, id as int);
    lemma_not_in_other_list(pre, ti, id as int);
    lemma_removed(from_ids, id);
    lemma_appended(to_ids, id);
    assert(post.holders_wf());
    assert forall|a: Address|
        post.balance_of(a) == pre.balance_of(a) && post.ids_of(a) == if a == from {
            pre.ids_of(a).remove_value(id)
        } else if a == to {
            pre.ids_of(a).push(id)
        } else {
            pre.ids_of(a)
        } by {
        lemma_same_actors(pre, post, a);
        if pre.knows(a) {
            let j = pre.place_of(a);
            lemma_place(pre, j);
            lemma_place(post, j);
        }
    }
    assert(post.assets_wf()) by {
        assert forall|i: int| 0 <= i < post.assets.len() implies valid_pixels(
            (#[trigger] post.assets[i]).pixels,
        ) by {
            assert(valid_pixels(pre.assets[i].pixels));
        }
        assert forall|i: int, j: int| 0 <= i < j < post.assets.len() implies (
        #[trigger] post.assets[i]).pixels != (#[trigger] post.assets[j]).pixels by {
            assert(pre.assets[i].pixels != pre.assets[j].pixels);
        }
    }
    assert(post.ownership_wf()) by {
        assert forall|i: int, k: int|
            0 <= i < post.holders.len() && 0 <= k < post.holders[i].ids.len() implies (
        #[trigger] post.holders[i].ids[k]) < post.assets.len() && post.assets[post.holders[i].ids[k] as int].owner
            == post.holders[i].who by {
            let x = post.holders[i].ids[k];
            if i == fi {
                assert(from_ids.remove_value(id).contains(x));
                assert(from_ids.contains(x));
                let k0 = choose|k0: int| 0 <= k0 < from_ids.len() && from_ids[k0] == x;
                assert(pre.holders[fi].ids[k0] < pre.assets.len());
            } else if i == ti {
                if k < to_ids.len() {
                    assert(pre.holders[ti].ids[k] == x);
                    assert(pre.assets[x as int].owner == to);
                }
            } else {
                assert(pre.holders[i].ids[k] == x);
                assert(pre.assets[x as int].owner == pre.holders[i].who);
            }
        }
        assert forall|i: int| 0 <= i < post.holders.len() implies (
        #[trigger] post.holders[i]).ids.no_duplicates() by {
            assert(pre.holders[i].ids.no_duplicates());
        }
        assert forall|a: int| 0 <= a < post.assets.len() implies post.ids_of(
            (#[trigger] post.assets[a]).owner,
        ).contains(a as u32) by {
            assert(pre.ids_of(pre.assets[a].owner).contains(a as u32));
        }
    }
    assert(post.market_wf()) by {
        assert forall|a: int| 0 <= a < post.listings.len() implies match #[trigger] post.listings[a] {
            Some(l) => l.seller == post.assets[a].owner && l.price > 0 && post.listed_ids.contains(
                a as u32,
            ),
            None => true,
        } by {
            assert(pre.listings[a] == post.listings[a]);
        }
        assert forall|k: int| 0 <= k < post.listed_ids.len() implies post.listing(
            #[trigger] post.listed_ids[k],
        ).is_some() by {
            assert(pre.listing(pre.listed_ids[k]).is_some());
        }
    }
    assert(post.index_wf()) by {
        assert forall|pos: int, color: int, k: int|
            0 <= pos < NFT_PIXELS && 0 <= color < NFT_COLORS && 0 <= k < post.search(pos, color).len() implies (
        #[trigger] post.search(pos, color)[k]) < post.assets.len() && post.assets[post.search(
            pos,
            color,
        )[k] as int].pixels[pos] == color by {
            assert(pre.search(pos, color)[k] < pre.assets.len());
        }
    }
}

/// A ledger that differs from `pre` in one further asset, owned by the
/// actor of the record at `ti` and not on offer: it is well formed.
pub proof fn lemma_asset_added(pre: Ledger, post: Ledger, ti: int, pixels: Seq<u8>)
    requires
        pre.structure_wf(),
        0 <= ti < pre.holders.len(),
        pre.assets.len() < NFT_MAX,
        valid_pixels(pixels),
        !pre.has_content(pixels),
        post.holders == pre.holders.update(
            ti,
            Holder { ids: pre.holders[ti].ids.push(pre.assets.len() as u32), ..pre.holders[ti] },
        ),
        post.assets == pre.assets.push(Asset { owner: pre.holders[ti].who, pixels }),
        post.listings == pre.listings.push(None),
        post.listed_ids == pre.listed_ids,
        post.same_settings(pre),
        post.index == pre.index,
    ensures
        post.structure_wf(),
        post.total_balance() == pre.total_balance(),
        post.same_balances(pre),
        forall|a: Address|
            post.ids_of(a) == if a == pre.holders[ti].who {
                pre.ids_of(a).push(pre.assets.len() as u32)
            } else {
                pre.ids_of(a)
            },
{
    let to = pre.holders[ti].who;
    let id = pre.assets.len() as u32;
    let to_ids = pre.holders[ti].ids;
    lemma_sum_update(pre.holders, ti, Holder { ids: to_ids.push(id), ..pre.holders[ti] });
    assert(!to_ids.contains(id)) by {
        if to_ids.contains(id) {
            let k = choose|k: int| 0 <= k < to_ids.len() && to_ids[k] == id;
            assert(pre.holders[ti].ids[k] < pre.assets.len());
        }
    }
    lemma_appended(to_ids, id);
    assert(post.holders_wf());
    assert forall|a: Address|
        post.balance_of(a) == pre.balance_of(a) && post.ids_of(a) == if a == to {
            pre.ids_of(a).push(id)
        } else {
            pre.ids_of(a)
        } by {
        lemma_same_actors(pre, post, a);
        if pre.knows(a) {
            let j = pre.place_of(a);
            lemma_place(pre, j);
            lemma_place(post, j);
        }
    }
    assert(post.assets_wf()) by {
        assert forall|i: int| 0 <= i < post.assets.len() implies valid_pixels(
            (#[trigger] post.assets[i]).pixels,
        ) by {
            if i < pre.assets.len() {
                assert(valid_pixels(pre.assets[i].pixels));
            }
        }
        assert forall|i: int, j: int| 0 <= i < j < post.assets.len() implies (
        #[trigger] post.assets[i]).pixels != (#[trigger] post.assets[j]).pixels by {
            if j < pre.assets.len() {
                assert(pre.assets[i].pixels != pre.assets[j].pixels);
            } else {
                assert(pre.assets[i].pixels != pixels);
            }
        }
    }
    assert(post.ownership_wf()) by {
        assert forall|i: int, k: int|
            0 <= i < post.holders.len() && 0 <= k < post.holders[i].ids.len() implies (
        #[trigger] post.holders[i].ids[k]) < post.assets.len() && post.assets[post.holders[i].ids[k] as int].owner
            == post.holders[i].who by {
            if i == ti && k == to_ids.len() {
            } else {
                assert(pre.holders[i].ids[k] == post.holders[i].ids[k]);
                assert(pre.holders[i].ids[k] < pre.assets.len());
            }
        }
        assert forall|i: int| 0 <= i < post.holders.len() implies (
        #[trigger] post.holders[i]).ids.no_duplicates() by {
            assert(pre.holders[i].ids.no_duplicates());
        }
        lemma_place(pre, ti);
        assert forall|a: int| 0 <= a < post.assets.len() implies post.ids_of(
            (#[trigger] post.assets[a]).owner,
        ).contains(a as u32) by {
            if a < pre.assets.len() {
                assert(pre.ids_of(pre.assets[a].owner).contains(a as u32));
            }
        }
    }
    assert(post.market_wf()) by {
        assert forall|a: int| 0 <= a < post.listings.len() implies match #[trigger] post.listings[a] {
            Some(l) => l.seller == post.assets[a].owner && l.price > 0 && post.listed_ids.contains(
                a as u32,
            ),
            None => true,
        } by {
            if a < pre.listings.len() {
                assert(pre.listings[a] == post.listings[a]);
            }
        }
        assert forall|k: int| 0 <= k < post.listed_ids.len() implies post.listing(
            #[trigger] post.listed_ids[k],
        ).is_some() by {
            assert(pre.listing(pre.listed_ids[k]).is_some());
        }
    }
    assert(post.index_wf()) by {
        assert forall|pos: int, color: int, k: int|
            0 <= pos < NFT_PIXELS && 0 <= color < NFT_COLORS && 0 <= k < post.search(pos, color).len() implies (
        #[trigger] post.search(pos, color)[k]) < post.assets.len() && post.assets[post.search(
            pos,
            color,
        )[k] as int].pixels[pos] == color by {
            assert(pre.search(pos, color)[k] < pre.assets.len());
        }
    }
}

/// Whether no entry of `pixels` is above 31.
pub fn pixels_in_range(pixels: &Vec<u8>) -> (ok: bool)
    ensures
        ok == forall|i: int| 0 <= i < pixels@.len() ==> #[trigger] pixels@[i] < NFT_COLORS,
{
    let mut i: usize = 0;
    while i < pixels.len()
        invariant
            i <= pixels.len(),
            forall|k: int| 0 <= k < i ==> #[trigger] pixels@[k] < NFT_COLORS,
        decreases pixels.len() - i,
    {
        if pixels[i] > 31 {
            return false;
        }
        i += 1;
    }
    true
}

impl SimpleTokenNft {
    /// The id of the asset with content `pixels`, if there is one.
    pub fn nft_find_by_value(&self, pixels: &Vec<u8>) -> (r: Option<u32>)
        requires
            self@.wf(),
        ensures
            r == self@.find_by_value(pixels@),
            r.is_some() == self@.has_content(pixels@),
    {
        let mut i: usize = 0;
        while i < self.assets.len()
            invariant
                i <= self.assets.len(),
                self@.wf(),
                self@.assets.len() == self.assets.len(),
                forall|k: int| 0 <= k < i ==> (#[trigger] self@.assets[k]).pixels != pixels@,
            decreases self.assets.len() - i,
        {
            if same_bytes(&self.assets[i].pixels, pixels) {
                proof {
                    assert(self@.assets[i as int].pixels == pixels@);
                    let j = choose|j: int|
                        0 <= j < self@.assets.len() && (#[trigger] self@.assets[j]).pixels == pixels@;
                    if j < i {
                        assert(self@.assets[j].pixels != self@.assets[i as int].pixels);
                    } else if i < j {
                        assert(self@.assets[i as int].pixels != self@.assets[j].pixels);
                    }
                }
                return Some(i as u32);
            }
            i += 1;
        }
        None
    }

    /// Enters asset `id` into the search index for the positions from
    /// `start` up to, not including, `end`.
    pub(crate) fn index_positions(&mut self, id: u32, start: u32, end: u32)
        requires
            old(self)@.structure_wf(),
            id < old(self)@.assets.len(),
            start <= end <= NFT_PIXELS,
        ensures
            final(self)@.structure_wf(),
            old(self)@.same_but_index(final(self)@),
            old(self)@.indexed(
                final(self)@,
                id,
                old(self)@.assets[id as int].pixels,
                start as int,
                end as int,
            ),
    {
        let mut pos: u32 = start;
        let ghost pixels = self@.assets[id as int].pixels;
        assert(valid_pixels(pixels));
        while pos < end
            invariant
                start <= pos <= end <= NFT_PIXELS,
                id < old(self)@.assets.len(),
                pixels == old(self)@.assets[id as int].pixels,
                valid_pixels(pixels),
                old(self)@.structure_wf(),
                self@.index_wf(),
                self.assets == old(self).assets,
                self.accounts == old(self).accounts,
                self@.same_settings(old(self)@),
                self@.same_market(old(self)@),
                old(self)@.indexed(self@, id, pixels, start as int, pos as int),
            decreases end - pos,
        {
            let color = self.assets[id as usize].pixels[pos as usize];
            assert(color == pixels[pos as int]);
            assert(color < NFT_COLORS);
            let s: usize = (pos as usize) * 32 + (color as usize);
            let ghost before = self@;
            self.index[s].push(id);
            proof {
                let after = self@;
                assert(after.index =~= before.index.update(s as int, before.index[s as int].push(id)));
                assert forall|p: int, c: int| 0 <= p < NFT_PIXELS && 0 <= c < NFT_COLORS implies #[trigger] after.search(
                    p,
                    c,
                ) == if p == pos && c == color {
                    before.search(p, c).push(id)
                } else {
                    before.search(p, c)
                } by {
                    assert(slot(p, c) == s <==> (p == pos && c == color));
                }
                assert forall|p: int, c: int, k: int|
                    0 <= p < NFT_PIXELS && 0 <= c < NFT_COLORS && 0 <= k < after.search(p, c).len() implies (
                #[trigger] after.search(p, c)[k]) < after.assets.len() && after.assets[after.search(
                    p,
                    c,
                )[k] as int].pixels[p] == c by {
                    if p == pos && c == color && k == before.search(p, c).len() {
                    } else {
                        assert(before.search(p, c)[k] < before.assets.len());
                    }
                }
            }
            pos += 1;
        }
        proof {
            assert(self@.holders == old(self)@.holders);
            assert(self@.assets == old(self)@.assets);
        }
    }

    /// Mints an asset of content `pixels` to `to`. The administrator must
    /// consent. Returns the new asset's id: the number of assets minted
    /// before.
    pub fn mint_nft(&mut self, auth: &Auth, to: Address, pixels: Vec<u8>) -> (r: Result<u32, Error>)
        requires
            old(self)@.wf(),
        ensures
            final(self)@.wf(),
            match r {
                Ok(id) => {
                    &&& old(self)@.mint_error(auth@, pixels@).is_none()
                    &&& old(self)@.minted(final(self)@, to, pixels@, id)
                },
                Err(e) => {
                    &&& old(self)@.mint_error(auth@, pixels@) == Some(e)
                    &&& *final(self) == *old(self)
                },
            },
    {
        if !self.initialized {
            return Err(Error::NotInited);
        }
        if !auth.approves(self.admin) {
            return Err(Error::Unauthorized);
        }
        if pixels.len() != NFT_PIXELS as usize {
            return Err(Error::PixelsLen81);
        }
        if !pixels_in_range(&pixels) {
            return Err(Error::PixelOutOfRange);
        }
        if self.nft_find_by_value(&pixels).is_some() {
            return Err(Error::DuplicateValue);
        }
        if self.assets.len() >= NFT_MAX {
            return Err(Error::NftMaxSupReached);
        }
        let id: u32 = self.assets.len() as u32;
        let ti = self.account_of(to);
        let ghost mid = self@;
        let ghost content = pixels@;
        self.accounts[ti].ids.push(id);
        self.assets.push(NftData { owner: to, pixels });
        self.listings.push(None);
        proof {
            let post = self@;
            assert(post.holders =~= mid.holders.update(
                ti as int,
                Holder { ids: mid.holders[ti as int].ids.push(id), ..mid.holders[ti as int] },
            ));
            assert(post.assets =~= mid.assets.push(Asset { owner: to, pixels: content }));
            assert(post.index =~= mid.index);
            lemma_asset_added(mid, post, ti as int, content);
        }
        let ghost added = self@;
        if self.index_on_mint {
            self.index_positions(id, 0, NFT_PIXELS);
        }
        proof {
            let pre = old(self)@;
            let post = self@;
            assert forall|a: Address|
                post.ids_of(a) == if a == to {
                    pre.ids_of(a).push(id)
                } else {
                    pre.ids_of(a)
                } by {
                assert(mid.ids_of(a) == pre.ids_of(a));
                assert(added.ids_of(a) == if a == to {
                    mid.ids_of(a).push(id)
                } else {
                    mid.ids_of(a)
                });
                assert(post.ids_of(a) == added.ids_of(a));
            }
        }
        Ok(id)
    }

    /// Enters asset `id` into the search index for the positions from
    /// `start` up to, not including, `end`. The administrator must consent.
    pub fn nft_index_range(&mut self, auth: &Auth, id: u32, start: u32, end: u32) -> (r: Result<(), Error>)
        requires
            old(self)@.wf(),
        ensures
            final(self)@.wf(),
            match r {
                Ok(()) => {
                    &&& old(self)@.index_range_error(auth@, id, start, end).is_none()
                    &&& old(self)@.same_but_index(final(self)@)
                    &&& old(self)@.indexed(
                        final(self)@,
                        id,
                        old(self)@.assets[id as int].pixels,
                        start as int,
                        end as int,
                    )
                },
                Err(e) => {
                    &&& old(self)@.index_range_error(auth@, id, start, end) == Some(e)
                    &&& *final(self) == *old(self)
                },
            },
    {
        if !self.initialized {
            return Err(Error::NotInited);
        }
        if end > NFT_PIXELS || start >= end {
            return Err(Error::BadRange);
        }
        if !auth.approves(self.admin) {
            return Err(Error::Unauthorized);
        }
        if id as usize >= self.assets.len() {
            return Err(Error::NftNotFound);
        }
        self.index_positions(id, start, end);
        Ok(())
    }

    /// Makes `to` the owner of asset `id`, which `from` owns and which is
    /// not on offer: the one way in which an asset changes hands.
    pub(crate) fn nft_transfer_internal(&mut self, from: Address, to: Address, id: u32) -> (r: Result<
        (),
        Error,
    >)
        requires
            old(self)@.structure_wf(),
            old(self)@.listing(id).is_none(),
        ensures
            final(self)@.structure_wf(),
            final(self)@.total_balance() == old(self)@.total_balance(),
            match r {
                Ok(()) => {
                    &&& old(self)@.move_error(from, to, id).is_none()
                    &&& old(self)@.asset_moved(final(self)@, from, to, id)
                },
                Err(e) => {
                    &&& old(self)@.move_error(from, to, id) == Some(e)
                    &&& *final(self) == *old(self)
                },
            },
    {
        if from == to {
            return Err(Error::SelfTransfer);
        }
        if id as usize >= self.assets.len() {
            return Err(Error::NftNotFound);
        }
        if self.assets[id as usize].owner != from {
            return Err(Error::NotOwner);
        }
        let ti = self.account_of(to);
        let ghost mid = self@;
        proof {
            lemma_owner_known(mid, id as int);
        }
        let fi = self.find_account(from).unwrap();
        proof {
            lemma_place(mid, fi as int);
            lemma_place(mid, ti as int);
        }
        vec_remove_once(&mut self.accounts[fi].ids, id);
        self.accounts[ti].ids.push(id);
        self.assets[id as usize].owner = to;
        proof {
            let post = self@;
            assert(post.holders =~= mid.holders.update(
                fi as int,
                Holder { ids: mid.holders[fi as int].ids.remove_value(id), ..mid.holders[fi as int] },
            ).update(
                ti as int,
                Holder { ids: mid.holders[ti as int].ids.push(id), ..mid.holders[ti as int] },
            ));
            assert(post.assets =~= mid.assets.update(
                id as int,
                Asset { owner: to, pixels: mid.assets[id as int].pixels },
            ));
            assert(post.index =~= mid.index);
            lemma_asset_moved(mid, post, fi as int, ti as int, id);
        }
        Ok(())
    }

    /// Hands asset `id` from `from`, who must consent and own it, to `to`.
    /// An asset on offer cannot be handed over.
    pub fn nft_transfer(&mut self, auth: &Auth, from: Address, to: Address, id: u32) -> (r: Result<
        (),
        Error,
    >)
        requires
            old(self)@.wf(),
        ensures
            final(self)@.wf(),
            match r {
                Ok(()) => {
                    &&& old(self)@.nft_transfer_error(auth@, from, to, id).is_none()
                    &&& old(self)@.asset_moved(final(self)@, from, to, id)
                },
                Err(e) => {
                    &&& old(self)@.nft_transfer_error(auth@, from, to, id) == Some(e)
                    &&& *final(self) == *old(self)
                },
            },
    {
        if !self.initialized {
            return Err(Error::NotInited);
        }
        if !auth.approves(from) {
            return Err(Error::Unauthorized);
        }
        if from == to {
            return Err(Error::SelfTransfer);
        }
        if (id as usize) < self.listings.len() && self.listings[id as usize].is_some() {
            return Err(Error::Listed);
        }
        self.nft_transfer_internal(from, to, id)
    }

    /// The number of assets minted.
    pub fn nft_total(&self) -> (total: u32)
        requires
            self@.wf(),
        ensures
            total == self@.assets.len(),
    {
        self.assets.len() as u32
    }

    /// The owner and the content of asset `id`.
    pub fn nft_get(&self, id: u32) -> (r: Result<(Address, Vec<u8>), Error>)
        ensures
            match r {
                Ok((owner, pixels)) => {
                    &&& self@.has_asset(id)
                    &&& owner == self@.assets[id as int].owner
                    &&& pixels@ == self@.assets[id as int].pixels
                },
                Err(e) => !self@.has_asset(id) && e == Error::NftNotFound,
            },
    {
        if id as usize >= self.assets.len() {
            return Err(Error::NftNotFound);
        }
        let data = &self.assets[id as usize];
        Ok((data.owner, copy_vec(&data.pixels)))
    }

    /// The content of asset `id`.
    pub fn nft_value(&self, id: u32) -> (r: Result<Vec<u8>, Error>)
        ensures
            match r {
                Ok(pixels) => self@.has_asset(id) && pixels@ == self@.assets[id as int].pixels,
                Err(e) => !self@.has_asset(id) && e == Error::NftNotFound,
            },
    {
        if id as usize >= self.assets.len() {
            return Err(Error::NftNotFound);
        }
        Ok(copy_vec(&self.assets[id as usize].pixels))
    }

    /// The ids entered into the search index for colour `color` at position
    /// `pos`, in the order they were entered.
    pub fn nft_search_pos_color(&self, pos: u32, color: u32) -> (r: Result<Vec<u32>, Error>)
        requires
            self@.wf(),
        ensures
            match r {
                Ok(ids) => pos < NFT_PIXELS && color < NFT_COLORS && ids@ == self@.search(
                    pos as int,
                    color as int,
                ),
                Err(e) => if pos >= NFT_PIXELS {
                    e == Error::PosRange0To80
                } else {
                    color >= NFT_COLORS && e == Error::ColorRange0To31
                },
            },
    {
        if pos >= NFT_PIXELS {
            return Err(Error::PosRange0To80);
        }
        if color >= NFT_COLORS {
            return Err(Error::ColorRange0To31);
        }
        let s: usize = (pos as usize) * 32 + (color as usize);
        Ok(copy_vec(&self.index[s]))
    }

    /// The ids of the assets that `owner` owns, in the order they arrived.
    pub fn nft_ids_of(&self, owner: Address) -> (ids: Vec<u32>)
        requires
            self@.wf(),
        ensures
            ids@ == self@.ids_of(owner),
    {
        match self.find_account(owner) {
            Some(i) => {
                proof {
                    lemma_place(self@, i as int);
                }
                copy_vec(&self.accounts[i].ids)
            },
            None => Vec::new(),
        }
    }

    /// The colour table.
    pub fn palette_get(&self) -> (r: Result<Vec<u32>, Error>)
        ensures
            match r {
                Ok(palette) => self@.initialized && palette@ == self@.palette,
                Err(e) => !self@.initialized && e == Error::NoPalette,
            },
    {
        if !self.initialized {
            return Err(Error::NoPalette);
        }
        Ok(copy_vec(&self.palette))
    }

    /// Replaces the colour table by `new_palette`, of 32 colours. The
    /// administrator must consent.
    pub fn palette_set(&mut self, auth: &Auth, new_palette: Vec<u32>) -> (r: Result<(), Error>)
        requires
            old(self)@.wf(),
        ensures
            final(self)@.wf(),
            match r {
                Ok(()) => {
                    &&& old(self)@.palette_set_error(auth@, new_palette@).is_none()
                    &&& final(self)@ == (Ledger { palette: new_palette@, ..old(self)@ })
                },
                Err(e) => {
                    &&& old(self)@.palette_set_error(auth@, new_palette@) == Some(e)
                    &&& *final(self) == *old(self)
                },
            },
    {
        if !self.initialized {
            return Err(Error::NotInited);
        }
        if new_palette.len() != PALETTE_LEN {
            return Err(Error::Palette32Required);
        }
        if !auth.approves(self.admin) {
            return Err(Error::Unauthorized);
        }
        self.palette = new_palette;
        proof {
            let pre = old(self)@;
            let post = self@;
            assert(post == (Ledger { palette: new_palette@, ..pre }));
            lemma_settings_changed(pre, post);
        }
        Ok(())
    }
}

impl Ledger {
    /// Why a new palette is refused, if it is.
    pub open spec fn palette_set_error(self, auth: Set<Address>, new_palette: Seq<u32>) -> Option<Error> {
        if !self.initialized {
            Some(Error::NotInited)
        } else if new_palette.len() != PALETTE_LEN {
            Some(Error::Palette32Required)
        } else if !auth.contains(self.admin) {
            Some(Error::Unauthorized)
        } else {
            None
        }
    }
}

/// A ledger that differs from a well-formed one in its settings only is
/// well formed but for what is asked of the settings.
pub proof fn lemma_settings_changed(pre: Ledger, post: Ledger)
    requires
        pre.structure_wf(),
        post.holders == pre.holders,
        post.assets == pre.assets,
        post.same_market(pre),
        post.index == pre.index,
    ensures
        post.structure_wf(),
        post.total_balance() == pre.total_balance(),
{
    assert forall|a: Address| post.ids_of(a) == pre.ids_of(a) by {
        lemma_same_actors(pre, post, a);
    }
    assert(post.ownership_wf()) by {
        assert forall|a: int| 0 <= a < post.assets.len() implies post.ids_of(
            (#[trigger] post.assets[a]).owner,
        ).contains(a as u32) by {
            assert(pre.ids_of(pre.assets[a].owner).contains(a as u32));
        }
    }
    assert(post.market_wf()) by {
        assert forall|k: int| 0 <= k < post.listed_ids.len() implies post.listing(
            #[trigger] post.listed_ids[k],
        ).is_some() by {
            assert(pre.listing(pre.listed_ids[k]).is_some());
        }
    }
    assert(post.index_wf()) by {
        assert forall|pos: int, color: int| post.search(pos, color) == pre.search(pos, color) by {}
    }
}

} // verus!
