//! The ledger laid open as plain values, to be stored and brought back.
//!
//! A [`Snapshot`] can hold anything; [`Snapshot::restore`] gives a ledger
//! only for one that is well formed.

use vstd::prelude::*;
use crate::address::Address;
use crate::holders::{lemma_place, lemma_sum_prefix, position_of};
use crate::list::{same_bytes, vec_contains};
use crate::model::{
    slot, sum_balances, valid_pixels, Holder, Ledger, Listing, DECIMALS, INDEX_SLOTS, NFT_COLORS,
    NFT_MAX, NFT_PIXELS, PALETTE_LEN, TOTAL_SUPPLY_RAW,
};
use crate::registry::pixels_in_range;
use crate::state::{Account, NftData, SimpleTokenNft};

verus! {

/// Every field of a ledger, as plain values.
pub struct Snapshot {
    /// Whether `init` has succeeded.
    pub initialized: bool,
    /// The administrator; meaningful once initialised.
    pub admin: Address,
    /// The token's display name.
    pub name: String,
    /// The token's symbol.
    pub symbol: String,
    /// The token's decimal precision.
    pub decimals: u32,
    /// The number of raw units in existence.
    pub total_supply: i128,
    /// The fee a seller pays to list an asset.
    pub listing_fee: i128,
    /// The colour table.
    pub palette: Vec<u32>,
    /// The fee the sender pays per recipient of a transfer.
    pub transfer_fee: i128,
    /// Whether minting also enters the asset into the search index.
    pub index_on_mint: bool,
    /// One record per actor.
    pub accounts: Vec<Account>,
    /// The assets; an asset's id is its position.
    pub assets: Vec<NftData>,
    /// For each asset id, the offer that stands for it, if any.
    pub listings: Vec<Option<Listing>>,
    /// The ids of the assets on offer, in the order they were listed.
    pub listed_ids: Vec<u32>,
    /// For each position and colour, at `position · 32 + colour`, the ids
    /// entered into the search index.
    pub index: Vec<Vec<u32>>,
}

impl View for Snapshot {
    type V = Ledger;

    open spec fn view(&self) -> Ledger {
        Ledger {
            initialized: self.initialized,
            admin: self.admin,
            name: self.name@,
            symbol: self.symbol@,
            decimals: self.decimals,
            total_supply: self.total_supply as int,
            listing_fee: self.listing_fee as int,
            palette: self.palette@,
            transfer_fee: self.transfer_fee as int,
            index_on_mint: self.index_on_mint,
            holders: self.accounts@.map_values(|a: Account| a@),
            assets: self.assets@.map_values(|d: NftData| d@),
            listings: self.listings@,
            listed_ids: self.listed_ids@,
            index: self.index@.map_values(|ids: Vec<u32>| ids@),
        }
    }
}

/// Whether no entry of `v` occurs twice.
pub fn vec_no_duplicates(v: &Vec<u32>) -> (ok: bool)
    ensures
        ok == v@.no_duplicates(),
{
    let mut i: usize = 0;
    while i < v.len()
        invariant
            i <= v.len(),
            forall|a: int, b: int| 0 <= a < b < i ==> v@[a] != v@[b],
        decreases v.len() - i,
    {
        let mut j: usize = 0;
        while j < i
            invariant
                j <= i < v.len(),
                forall|b: int| 0 <= b < j ==> v@[b] != v@[i as int],
            decreases i - j,
        {
            if v[j] == v[i] {
                return false;
            }
            j += 1;
        }
        i += 1;
    }
    proof {
        assert forall|a: int, b: int| 0 <= a < v@.len() && 0 <= b < v@.len() && a != b implies v@[a]
            != v@[b] by {
            if a < b {
                assert(v@[a] != v@[b]);
            } else {
                assert(v@[b] != v@[a]);
            }
        }
    }
    true
}

impl Snapshot {
    /// Whether no two records are of the same actor and no balance is
    /// negative.
    pub fn holders_ok(&self) -> (ok: bool)
        ensures
            ok == self@.holders_wf(),
    {
        let n = self.accounts.len();
        let mut i: usize = 0;
        while i < n
            invariant
                i <= n,
                n == self.accounts.len(),
                n == self@.holders.len(),
                forall|a: int, b: int|
                    0 <= a < b < i ==> (#[trigger] self@.holders[a]).who != (#[trigger] self@.holders[b]).who,
                forall|a: int| 0 <= a < i ==> (#[trigger] self@.holders[a]).balance >= 0,
            decreases n - i,
        {
            if self.accounts[i].balance < 0 {
                assert(self@.holders[i as int].balance < 0);
                return false;
            }
            let mut j: usize = 0;
            while j < i
                invariant
                    j <= i < n,
                    n == self.accounts.len(),
                    n == self@.holders.len(),
                    forall|b: int|
                        0 <= b < j ==> (#[trigger] self@.holders[b]).who != self@.holders[i as int].who,
                decreases i - j,
            {
                if self.accounts[j].who == self.accounts[i].who {
                    assert(self@.holders[j as int].who == self@.holders[i as int].who);
                    return false;
                }
                j += 1;
            }
            i += 1;
        }
        true
    }

    /// Whether the settings and the sum of the balances are as they must be:
    /// those of an initialised ledger, or of an empty one.
    pub fn funds_ok(&self) -> (ok: bool)
        requires
            self@.holders_wf(),
        ensures
            ok == self@.funds_wf(),
    {
        if self.transfer_fee < 0 {
            return false;
        }
        if !self.initialized {
            return self.accounts.len() == 0 && self.assets.len() == 0 && self.listing_fee == 0
                && self.total_supply == 0;
        }
        if self.decimals != DECIMALS || self.total_supply != TOTAL_SUPPLY_RAW || self.listing_fee < 0
            || self.palette.len() != PALETTE_LEN {
            return false;
        }
        let n = self.accounts.len();
        let mut sum: i128 = 0;
        let mut i: usize = 0;
        proof {
            assert(self@.holders.take(0) =~= Seq::<Holder>::empty());
        }
        while i < n
            invariant
                i <= n,
                n == self.accounts.len(),
                n == self@.holders.len(),
                self@.holders_wf(),
                sum == sum_balances(self@.holders.take(i as int)),
                0 <= sum <= TOTAL_SUPPLY_RAW,
            decreases n - i,
        {
            let balance = self.accounts[i].balance;
            proof {
                assert(self@.holders[i as int].balance >= 0);
                assert(self@.holders.take(i + 1).drop_last() =~= self@.holders.take(i as int));
                lemma_sum_prefix(self@.holders, i + 1);
            }
            if balance > TOTAL_SUPPLY_RAW - sum {
                return false;
            }
            sum = sum + balance;
            i += 1;
        }
        proof {
            assert(self@.holders.take(n as int) =~= self@.holders);
        }
        sum == TOTAL_SUPPLY_RAW
    }

    /// Whether there are at most `NFT_MAX` assets, each with a valid content
    /// that no other asset has.
    pub fn assets_ok(&self) -> (ok: bool)
        ensures
            ok == self@.assets_wf(),
    {
        let n = self.assets.len();
        if n > NFT_MAX {
            return false;
        }
        let mut i: usize = 0;
        while i < n
            invariant
                i <= n,
                n == self.assets.len(),
                n == self@.assets.len(),
                forall|a: int| 0 <= a < i ==> valid_pixels((#[trigger] self@.assets[a]).pixels),
                forall|a: int, b: int|
                    0 <= a < b < i ==> (#[trigger] self@.assets[a]).pixels != (#[trigger] self@.assets[b]).pixels,
            decreases n - i,
        {
            if self.assets[i].pixels.len() != NFT_PIXELS as usize || !pixels_in_range(
                &self.assets[i].pixels,
            ) {
                assert(!valid_pixels(self@.assets[i as int].pixels));
                return false;
            }
            let mut j: usize = 0;
            while j < i
                invariant
                    j <= i < n,
                    n == self.assets.len(),
                    n == self@.assets.len(),
                    forall|b: int|
                        0 <= b < j ==> (#[trigger] self@.assets[b]).pixels != self@.assets[i as int].pixels,
                decreases i - j,
            {
                if same_bytes(&self.assets[j].pixels, &self.assets[i].pixels) {
                    assert(self@.assets[j as int].pixels == self@.assets[i as int].pixels);
                    return false;
                }
                j += 1;
            }
            i += 1;
        }
        true
    }

    /// Whether each actor's list holds exactly the assets that name the
    /// actor as their owner, each once.
    pub fn ownership_ok(&self) -> (ok: bool)
        requires
            self@.holders_wf(),
            self@.assets_wf(),
        ensures
            ok == self@.ownership_wf(),
    {
        let n = self.accounts.len();
        let mut i: usize = 0;
        while i < n
            invariant
                i <= n,
                n == self.accounts.len(),
                n == self@.holders.len(),
                self@.assets.len() == self.assets.len(),
                forall|a: int, k: int|
                    0 <= a < i && 0 <= k < self@.holders[a].ids.len() ==> {
                        &&& (#[trigger] self@.holders[a].ids[k]) < self@.assets.len()
                        &&& self@.assets[self@.holders[a].ids[k] as int].owner == self@.holders[a].who
                    },
                forall|a: int| 0 <= a < i ==> (#[trigger] self@.holders[a]).ids.no_duplicates(),
            decreases n - i,
        {
            if !vec_no_duplicates(&self.accounts[i].ids) {
                assert(!self@.holders[i as int].ids.no_duplicates());
                return false;
            }
            let m = self.accounts[i].ids.len();
            let mut k: usize = 0;
            while k < m
                invariant
                    k <= m,
                    i < n,
                    n == self.accounts.len(),
                    n == self@.holders.len(),
                    m == self@.holders[i as int].ids.len(),
                    m == self.accounts[i as int].ids.len(),
                    self@.assets.len() == self.assets.len(),
                    forall|c: int|
                        0 <= c < k ==> {
                            &&& (#[trigger] self@.holders[i as int].ids[c]) < self@.assets.len()
                            &&& self@.assets[self@.holders[i as int].ids[c] as int].owner
                                == self@.holders[i as int].who
                        },
                decreases m - k,
            {
                let id = self.accounts[i].ids[k];
                assert(id == self@.holders[i as int].ids[k as int]);
                if id as usize >= self.assets.len() {
                    return false;
                }
                if self.assets[id as usize].owner != self.accounts[i].who {
                    assert(self@.assets[id as int].owner != self@.holders[i as int].who);
                    return false;
                }
                k += 1;
            }
            i += 1;
        }
        let total = self.assets.len();
        let mut a: usize = 0;
        while a < total
            invariant
                a <= total,
                total == self.assets.len(),
                total == self@.assets.len(),
                total <= NFT_MAX,
                self@.holders_wf(),
                forall|b: int|
                    0 <= b < a ==> self@.ids_of((#[trigger] self@.assets[b]).owner).contains(b as u32),
            decreases total - a,
        {
            let owner = self.assets[a].owner;
            assert(owner == self@.assets[a as int].owner);
            match position_of(&self.accounts, owner) {
                Some(at) => {
                    proof {
                        lemma_place(self@, at as int);
                    }
                    if !vec_contains(&self.accounts[at].ids, a as u32) {
                        assert(!self@.ids_of(self@.assets[a as int].owner).contains(a as u32));
                        return false;
                    }
                },
                None => {
                    proof {
                        if self@.knows(owner) {
                            let at = self@.place_of(owner);
                            assert(self.accounts@[at].who == owner);
                        }
                        assert(self@.ids_of(owner) =~= Seq::<u32>::empty());
                        assert(!self@.ids_of(self@.assets[a as int].owner).contains(a as u32));
                    }
                    return false;
                },
            }
            a += 1;
        }
        true
    }

    /// Whether offers stand only for existing assets, at a positive price
    /// and by the asset's owner, and the list of ids on offer names exactly
    /// those assets, each once.
    pub fn market_ok(&self) -> (ok: bool)
        requires
            self@.assets_wf(),
        ensures
            ok == self@.market_wf(),
    {
        let n = self.listings.len();
        if n != self.assets.len() {
            return false;
        }
        if !vec_no_duplicates(&self.listed_ids) {
            return false;
        }
        let mut id: usize = 0;
        while id < n
            invariant
                id <= n,
                n == self.listings.len(),
                n == self.assets.len(),
                n == self@.assets.len(),
                n <= NFT_MAX,
                forall|a: int|
                    0 <= a < id ==> match #[trigger] self@.listings[a] {
                        Some(l) => l.seller == self@.assets[a].owner && l.price > 0
                            && self@.listed_ids.contains(a as u32),
                        None => true,
                    },
            decreases n - id,
        {
            match self.listings[id] {
                Some(l) => {
                    if l.seller != self.assets[id].owner || l.price <= 0 || !vec_contains(
                        &self.listed_ids,
                        id as u32,
                    ) {
                        assert(self@.listings[id as int] == Some(l));
                        assert(self@.assets[id as int].owner == self.assets[id as int].owner);
                        return false;
                    }
                },
                None => {},
            }
            id += 1;
        }
        let m = self.listed_ids.len();
        let mut k: usize = 0;
        while k < m
            invariant
                k <= m,
                m == self.listed_ids.len(),
                n == self.listings.len(),
                forall|c: int| 0 <= c < k ==> self@.listing(#[trigger] self@.listed_ids[c]).is_some(),
            decreases m - k,
        {
            let x = self.listed_ids[k];
            if x as usize >= n || self.listings[x as usize].is_none() {
                assert(self@.listing(self@.listed_ids[k as int]).is_none());
                return false;
            }
            k += 1;
        }
        true
    }

    /// Whether the search index has one list per position and colour, and
    /// names only assets that have that colour at that position.
    pub fn index_ok(&self) -> (ok: bool)
        requires
            self@.assets_wf(),
        ensures
            ok == self@.index_wf(),
    {
        if self.index.len() != INDEX_SLOTS {
            return false;
        }
        let mut pos: usize = 0;
        while pos < NFT_PIXELS as usize
            invariant
                pos <= NFT_PIXELS,
                self.index.len() == INDEX_SLOTS,
                self@.index.len() == INDEX_SLOTS,
                self@.assets_wf(),
                self@.assets.len() == self.assets.len(),
                forall|p: int, c: int, k: int|
                    0 <= p < pos && 0 <= c < NFT_COLORS && 0 <= k < self@.search(p, c).len() ==> {
                        &&& (#[trigger] self@.search(p, c)[k]) < self@.assets.len()
                        &&& self@.assets[self@.search(p, c)[k] as int].pixels[p] == c
                    },
            decreases NFT_PIXELS - pos,
        {
            let mut color: usize = 0;
            while color < NFT_COLORS as usize
                invariant
                    color <= NFT_COLORS,
                    pos < NFT_PIXELS,
                    self.index.len() == INDEX_SLOTS,
                    self@.index.len() == INDEX_SLOTS,
                    self@.assets_wf(),
                    self@.assets.len() == self.assets.len(),
                    forall|c: int, k: int|
                        0 <= c < color && 0 <= k < self@.search(pos as int, c).len() ==> {
                            &&& (#[trigger] self@.search(pos as int, c)[k]) < self@.assets.len()
                            &&& self@.assets[self@.search(pos as int, c)[k] as int].pixels[pos as int] == c
                        },
                decreases NFT_COLORS - color,
            {
                let s: usize = pos * 32 + color;
                assert(s == slot(pos as int, color as int));
                let m = self.index[s].len();
                let mut k: usize = 0;
                while k < m
                    invariant
                        k <= m,
                        pos < NFT_PIXELS,
                        color < NFT_COLORS,
                        s == slot(pos as int, color as int),
                        s < INDEX_SLOTS,
                        self.index.len() == INDEX_SLOTS,
                        self@.index.len() == INDEX_SLOTS,
                        m == self.index[s as int].len(),
                        m == self@.search(pos as int, color as int).len(),
                        self@.assets_wf(),
                        self@.assets.len() == self.assets.len(),
                        forall|c: int|
                            0 <= c < k ==> {
                                &&& (#[trigger] self@.search(pos as int, color as int)[c]) < self@.assets.len()
                                &&& self@.assets[self@.search(pos as int, color as int)[c] as int].pixels[pos as int]
                                    == color
                            },
                    decreases m - k,
                {
                    let id = self.index[s][k];
                    assert(id == self@.search(pos as int, color as int)[k as int]);
                    if id as usize >= self.assets.len() {
                        return false;
                    }
                    assert(valid_pixels(self@.assets[id as int].pixels));
                    if self.assets[id as usize].pixels[pos] as usize != color {
                        assert(self@.assets[id as int].pixels[pos as int] != color);
                        return false;
                    }
                    k += 1;
                }
                color += 1;
            }
            pos += 1;
        }
        true
    }

    /// Whether the snapshot is one of a well-formed ledger.
    pub fn is_wf(&self) -> (ok: bool)
        ensures
            ok == self@.wf(),
    {
        if !self.holders_ok() {
            return false;
        }
        if !self.assets_ok() {
            return false;
        }
        if !self.funds_ok() {
            return false;
        }
        if !self.ownership_ok() {
            return false;
        }
        if !self.market_ok() {
            return false;
        }
        self.index_ok()
    }

    /// The ledger that the snapshot is one of, where it is well formed.
    pub fn restore(self) -> (r: Option<SimpleTokenNft>)
        ensures
            match r {
                Some(ledger) => self@.wf() && ledger@ == self@,
                None => !self@.wf(),
            },
    {
        if !self.is_wf() {
            return None;
        }
        Some(
            SimpleTokenNft {
                initialized: self.initialized,
                admin: self.admin,
                name: self.name,
                symbol: self.symbol,
                decimals: self.decimals,
                total_supply: self.total_supply,
                listing_fee: self.listing_fee,
                palette: self.palette,
                transfer_fee: self.transfer_fee,
                index_on_mint: self.index_on_mint,
                accounts: self.accounts,
                assets: self.assets,
                listings: self.listings,
                listed_ids: self.listed_ids,
                index: self.index,
            },
        )
    }
}

impl SimpleTokenNft {
    /// The ledger laid open, to be stored.
    pub fn into_snapshot(self) -> (s: Snapshot)
        ensures
            s@ == self@,
    {
        Snapshot {
            initialized: self.initialized,
            admin: self.admin,
            name: self.name,
            symbol: self.symbol,
            decimals: self.decimals,
            total_supply: self.total_supply,
            listing_fee: self.listing_fee,
            palette: self.palette,
            transfer_fee: self.transfer_fee,
            index_on_mint: self.index_on_mint,
            accounts: self.accounts,
            assets: self.assets,
            listings: self.listings,
            listed_ids: self.listed_ids,
            index: self.index,
        }
    }
}

} // verus!
