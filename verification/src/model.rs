//! The ledger as a mathematical value, and what makes one well formed.
//!
//! Every contract of the executable ledger is stated over [`Ledger`], the
//! view of [`crate::SimpleTokenNft`].

use vstd::prelude::*;
use crate::address::Address;

verus! {

/// The number of raw units that exist once the ledger is initialised:
/// `100_000_000_000 · 10^3`.
pub const TOTAL_SUPPLY_RAW: i128 = 100_000_000_000_000;

/// The raw units issued per decimal scale: the supply is this times
/// `10^decimals`.
pub const BASE_SUPPLY: i128 = 100_000_000_000;

/// The only decimal precision a ledger accepts.
pub const DECIMALS: u32 = 3;

/// The fee, in raw units, that the sender pays per recipient of a transfer,
/// unless the ledger is made with another.
pub const TRANSFER_FEE_RAW: i128 = 1;

/// The listing fee, in raw units, that a ledger starts with.
pub const DEFAULT_LISTING_FEE: i128 = 1;

/// The number of assets that can ever be minted.
pub const NFT_MAX: usize = 10_000;

/// The number of entries of a content buffer: a 9 × 9 grid.
pub const NFT_PIXELS: u32 = 81;

/// The number of colours an entry of a content buffer can name.
pub const NFT_COLORS: u32 = 32;

/// The number of colours of a palette.
pub const PALETTE_LEN: usize = 32;

/// The number of (position, colour) pairs that assets are searched by.
pub const INDEX_SLOTS: usize = 2592;

/// An offer to sell an asset.
#[derive(Clone, Copy, Debug, PartialEq, Eq, Structural)]
pub struct Listing {
    /// Who sells, and owns the asset while the offer stands.
    pub seller: Address,
    /// The price in raw units.
    pub price: i128,
}

/// What the ledger records of one actor.
pub struct Holder {
    /// The actor.
    pub who: Address,
    /// The actor's balance in raw units.
    pub balance: int,
    /// The ids of the assets the actor owns, in the order they arrived.
    pub ids: Seq<u32>,
}

/// An asset: its owner and its content.
pub struct Asset {
    /// The actor that owns the asset.
    pub owner: Address,
    /// The 81 palette indices that make the asset what it is.
    pub pixels: Seq<u8>,
}

/// The whole state of the ledger.
pub struct Ledger {
    /// Whether `init` has succeeded.
    pub initialized: bool,
    /// The administrator; meaningful once initialised.
    pub admin: Address,
    /// The token's display name.
    pub name: Seq<char>,
    /// The token's symbol.
    pub symbol: Seq<char>,
    /// The token's decimal precision.
    pub decimals: u32,
    /// The number of raw units in existence.
    pub total_supply: int,
    /// The fee a seller pays to list an asset.
    pub listing_fee: int,
    /// The colour table.
    pub palette: Seq<u32>,
    /// The fee the sender pays per recipient of a transfer; fixed when the
    /// ledger is made.
    pub transfer_fee: int,
    /// Whether minting also enters the asset into the search index; fixed
    /// when the ledger is made.
    pub index_on_mint: bool,
    /// One record per actor that ever received funds or assets.
    pub holders: Seq<Holder>,
    /// The assets; an asset's id is its position.
    pub assets: Seq<Asset>,
    /// For each asset id, the offer that stands for it, if any.
    pub listings: Seq<Option<Listing>>,
    /// The ids of the assets on offer, in the order they were listed.
    pub listed_ids: Seq<u32>,
    /// For each pair of a position and a colour, at `position · 32 + colour`,
    /// the ids entered into the search index.
    pub index: Seq<Seq<u32>>,
}

/// The sum of the balances of `holders`.
pub open spec fn sum_balances(holders: Seq<Holder>) -> int
    decreases holders.len(),
{
    if holders.len() == 0 {
        0
    } else {
        sum_balances(holders.drop_last()) + holders.last().balance
    }
}

/// Whether `pixels` is a content buffer: 81 entries, none above 31.
pub open spec fn valid_pixels(pixels: Seq<u8>) -> bool {
    &&& pixels.len() == NFT_PIXELS
    &&& forall|i: int| 0 <= i < pixels.len() ==> #[trigger] pixels[i] < NFT_COLORS
}

/// The place of a position and a colour in the search index.
pub open spec fn slot(pos: int, color: int) -> int {
    pos * 32 + color
}

impl Ledger {
    /// Whether the ledger keeps a record of `who`.
    pub open spec fn knows(self, who: Address) -> bool {
        exists|i: int| 0 <= i < self.holders.len() && (#[trigger] self.holders[i]).who == who
    }

    /// The place of the record of `who`, where there is one.
    pub open spec fn place_of(self, who: Address) -> int {
        choose|i: int| 0 <= i < self.holders.len() && (#[trigger] self.holders[i]).who == who
    }

    /// The balance of `who`: zero for an actor without a record.
    pub open spec fn balance_of(self, who: Address) -> int {
        if self.knows(who) {
            self.holders[self.place_of(who)].balance
        } else {
            0
        }
    }

    /// The ids of the assets of `who`, in order: none for an actor without a
    /// record.
    pub open spec fn ids_of(self, who: Address) -> Seq<u32> {
        if self.knows(who) {
            self.holders[self.place_of(who)].ids
        } else {
            Seq::empty()
        }
    }

    /// The sum of all balances.
    pub open spec fn total_balance(self) -> int {
        sum_balances(self.holders)
    }

    /// Whether an asset with content `pixels` exists.
    pub open spec fn has_content(self, pixels: Seq<u8>) -> bool {
        exists|i: int| 0 <= i < self.assets.len() && (#[trigger] self.assets[i]).pixels == pixels
    }

    /// The id of the asset with content `pixels`, if there is one.
    pub open spec fn find_by_value(self, pixels: Seq<u8>) -> Option<u32> {
        if self.has_content(pixels) {
            Some(
                (choose|i: int|
                    0 <= i < self.assets.len() && (#[trigger] self.assets[i]).pixels
                        == pixels) as u32,
            )
        } else {
            None
        }
    }

    /// Whether an asset with this id exists.
    pub open spec fn has_asset(self, id: u32) -> bool {
        id < self.assets.len()
    }

    /// The offer that stands for asset `id`, if any.
    pub open spec fn listing(self, id: u32) -> Option<Listing> {
        if id < self.listings.len() {
            self.listings[id as int]
        } else {
            None
        }
    }

    /// The ids entered into the search index for colour `color` at position
    /// `pos`.
    pub open spec fn search(self, pos: int, color: int) -> Seq<u32> {
        self.index[slot(pos, color)]
    }

    /// No two records are of the same actor, and no balance is negative.
    pub open spec fn holders_wf(self) -> bool {
        &&& forall|i: int, j: int|
            0 <= i < j < self.holders.len() ==> (#[trigger] self.holders[i]).who != (
            #[trigger] self.holders[j]).who
        &&& forall|i: int| 0 <= i < self.holders.len() ==> (#[trigger] self.holders[i]).balance >= 0
    }

    /// The transfer fee is not negative. Once initialised, the fixed
    /// parameters have their values and the balances sum to the supply;
    /// before, the ledger is empty.
    pub open spec fn funds_wf(self) -> bool {
        &&& 0 <= self.transfer_fee <= i128::MAX
        &&& if self.initialized {
            &&& self.decimals == DECIMALS
            &&& self.total_supply == TOTAL_SUPPLY_RAW
            &&& self.listing_fee >= 0
            &&& self.listing_fee <= i128::MAX
            &&& self.palette.len() == PALETTE_LEN
            &&& self.total_balance() == self.total_supply
        } else {
            &&& self.holders.len() == 0
            &&& self.assets.len() == 0
            &&& self.listing_fee == 0
            &&& self.total_supply == 0
        }
    }

    /// There are at most `NFT_MAX` assets, each with a valid content that no
    /// other asset has.
    pub open spec fn assets_wf(self) -> bool {
        &&& self.assets.len() <= NFT_MAX
        &&& forall|i: int| 0 <= i < self.assets.len() ==> valid_pixels((#[trigger] self.assets[i]).pixels)
        &&& forall|i: int, j: int|
            0 <= i < j < self.assets.len() ==> (#[trigger] self.assets[i]).pixels != (
            #[trigger] self.assets[j]).pixels
    }

    /// Each actor's list holds exactly the assets that name the actor as
    /// their owner, each once.
    pub open spec fn ownership_wf(self) -> bool {
        &&& forall|i: int, k: int|
            0 <= i < self.holders.len() && 0 <= k < self.holders[i].ids.len() ==> {
                &&& (#[trigger] self.holders[i].ids[k]) < self.assets.len()
                &&& self.assets[self.holders[i].ids[k] as int].owner == self.holders[i].who
            }
        &&& forall|i: int| 0 <= i < self.holders.len() ==> (#[trigger] self.holders[i]).ids.no_duplicates()
        &&& forall|id: int|
            0 <= id < self.assets.len() ==> self.ids_of((#[trigger] self.assets[id]).owner).contains(
                id as u32,
            )
    }

    /// Offers stand only for existing assets, at a positive price, by the
    /// asset's owner; the list of ids on offer names exactly those assets,
    /// each once.
    pub open spec fn market_wf(self) -> bool {
        &&& self.listings.len() == self.assets.len()
        &&& forall|id: int|
            0 <= id < self.listings.len() ==> match #[trigger] self.listings[id] {
                Some(l) => l.seller == self.assets[id].owner && l.price > 0
                    && self.listed_ids.contains(id as u32),
                None => true,
            }
        &&& self.listed_ids.no_duplicates()
        &&& forall|k: int|
            0 <= k < self.listed_ids.len() ==> self.listing(#[trigger] self.listed_ids[k]).is_some()
    }

    /// The search index has one list per position and colour, and names
    /// only assets that have that colour at that position.
    pub open spec fn index_wf(self) -> bool {
        &&& self.index.len() == INDEX_SLOTS
        &&& forall|pos: int, color: int, k: int|
            0 <= pos < NFT_PIXELS && 0 <= color < NFT_COLORS && 0 <= k < self.search(
                pos,
                color,
            ).len() ==> {
                &&& (#[trigger] self.search(pos, color)[k]) < self.assets.len()
                &&& self.assets[self.search(pos, color)[k] as int].pixels[pos] == color
            }
    }

    /// What holds of a ledger whatever its balances sum to.
    pub open spec fn structure_wf(self) -> bool {
        &&& self.holders_wf()
        &&& self.assets_wf()
        &&& self.ownership_wf()
        &&& self.market_wf()
        &&& self.index_wf()
    }

    /// What holds of every ledger between two operations.
    pub open spec fn wf(self) -> bool {
        &&& self.structure_wf()
        &&& self.funds_wf()
    }

    /// The ledger before `init`.
    pub open spec fn fresh(transfer_fee: int, index_on_mint: bool) -> Ledger {
        Ledger {
            initialized: false,
            admin: Address { contract: false, hi: 0, lo: 0 },
            name: Seq::empty(),
            symbol: Seq::empty(),
            decimals: 0,
            total_supply: 0,
            listing_fee: 0,
            palette: Seq::empty(),
            transfer_fee,
            index_on_mint,
            holders: Seq::empty(),
            assets: Seq::empty(),
            listings: Seq::empty(),
            listed_ids: Seq::empty(),
            index: Seq::new(INDEX_SLOTS as nat, |s: int| Seq::<u32>::empty()),
        }
    }

    /// Whether `self` and `other` agree on every setting: all but the
    /// holders, the assets, the market and the search index.
    pub open spec fn same_settings(self, other: Ledger) -> bool {
        &&& self.initialized == other.initialized
        &&& self.admin == other.admin
        &&& self.name == other.name
        &&& self.symbol == other.symbol
        &&& self.decimals == other.decimals
        &&& self.total_supply == other.total_supply
        &&& self.listing_fee == other.listing_fee
        &&& self.palette == other.palette
        &&& self.transfer_fee == other.transfer_fee
        &&& self.index_on_mint == other.index_on_mint
    }

    /// Whether every actor has the same balance in `self` and `other`.
    pub open spec fn same_balances(self, other: Ledger) -> bool {
        forall|a: Address| self.balance_of(a) == other.balance_of(a)
    }

    /// Whether every actor has the same list of assets in `self` and `other`.
    pub open spec fn same_holdings(self, other: Ledger) -> bool {
        forall|a: Address| self.ids_of(a) == other.ids_of(a)
    }

    /// Whether `self` and `other` agree on the offers and the ids on offer.
    pub open spec fn same_market(self, other: Ledger) -> bool {
        &&& self.listings == other.listings
        &&& self.listed_ids == other.listed_ids
    }
}

} // verus!
