//! The executable ledger and how it reads as a [`Ledger`].

use vstd::prelude::*;
use crate::address::Address;
use crate::error::Error;
use crate::model::{Asset, Holder, Ledger, Listing, INDEX_SLOTS, TRANSFER_FEE_RAW};

verus! {

/// An asset as the ledger stores it.
pub struct NftData {
    /// The actor that owns the asset.
    pub owner: Address,
    /// The asset's content: 81 palette indices.
    pub pixels: Vec<u8>,
}

impl View for NftData {
    type V = Asset;

    open spec fn view(&self) -> Asset {
        Asset { owner: self.owner, pixels: self.pixels@ }
    }
}

/// The record of one actor as the ledger stores it.
pub struct Account {
    /// The actor.
    pub who: Address,
    /// The actor's balance in raw units.
    pub balance: i128,
    /// The ids of the assets the actor owns, in the order they arrived.
    pub ids: Vec<u32>,
}

impl View for Account {
    type V = Holder;

    open spec fn view(&self) -> Holder {
        Holder { who: self.who, balance: self.balance as int, ids: self.ids@ }
    }
}

/// The ledger: token balances, the asset registry and the marketplace.
pub struct SimpleTokenNft {
    pub(crate) initialized: bool,
    pub(crate) admin: Address,
    pub(crate) name: String,
    pub(crate) symbol: String,
    pub(crate) decimals: u32,
    pub(crate) total_supply: i128,
    pub(crate) listing_fee: i128,
    pub(crate) palette: Vec<u32>,
    pub(crate) transfer_fee: i128,
    pub(crate) index_on_mint: bool,
    pub(crate) accounts: Vec<Account>,
    pub(crate) assets: Vec<NftData>,
    pub(crate) listings: Vec<Option<Listing>>,
    pub(crate) listed_ids: Vec<u32>,
    pub(crate) index: Vec<Vec<u32>>,
}

impl View for SimpleTokenNft {
    type V = Ledger;

    open(crate) spec fn view(&self) -> Ledger {
        Ledger {
            initialized: self.initialized,
            admin: self.admin,
            name: self.name@,
            symbol: self.symbol@,
            decimals: self.decimals,
            total_supply: self.total_supply as int,
            listing_fee: self.listing_fee as int,
            palette: self.palette@,
            transfer_fee: self.transfer_fee as int,
            index_on_mint: self.index_on_mint,
            holders: self.accounts@.map_values(|a: Account| a@),
            assets: self.assets@.map_values(|d: NftData| d@),
            listings: self.listings@,
            listed_ids: self.listed_ids@,
            index: self.index@.map_values(|ids: Vec<u32>| ids@),
        }
    }
}

impl SimpleTokenNft {
    /// A ledger that has not been initialised, with a transfer fee of
    /// `TRANSFER_FEE_RAW` and without indexing at mint.
    pub fn new() -> (ledger: SimpleTokenNft)
        ensures
            ledger@ == Ledger::fresh(TRANSFER_FEE_RAW as int, false),
            ledger@.wf(),
    {
        SimpleTokenNft::make(TRANSFER_FEE_RAW, false)
    }

    /// A ledger that has not been initialised, with the given transfer fee,
    /// which must not be negative. With `index_on_mint`, every mint also
    /// enters the new asset into the search index.
    pub fn with_settings(transfer_fee: i128, index_on_mint: bool) -> (r: Result<SimpleTokenNft, Error>)
        ensures
            match r {
                Ok(ledger) => {
                    &&& transfer_fee >= 0
                    &&& ledger@ == Ledger::fresh(transfer_fee as int, index_on_mint)
                    &&& ledger@.wf()
                },
                Err(e) => transfer_fee < 0 && e == Error::BadFee,
            },
    {
        if transfer_fee < 0 {
            return Err(Error::BadFee);
        }
        Ok(SimpleTokenNft::make(transfer_fee, index_on_mint))
    }

    fn make(transfer_fee: i128, index_on_mint: bool) -> (ledger: SimpleTokenNft)
        requires
            transfer_fee >= 0,
        ensures
            ledger@ == Ledger::fresh(transfer_fee as int, index_on_mint),
            ledger@.wf(),
    {
        let mut index: Vec<Vec<u32>> = Vec::new();
        let mut s: usize = 0;
        while s < INDEX_SLOTS
            invariant
                s <= INDEX_SLOTS,
                index@.len() == s,
                forall|k: int| 0 <= k < s ==> (#[trigger] index@[k])@ == Seq::<u32>::empty(),
            decreases INDEX_SLOTS - s,
        {
            index.push(Vec::new());
            s += 1;
        }
        let ledger = SimpleTokenNft {
            initialized: false,
            admin: Address::account(0, 0),
            name: String::new(),
            symbol: String::new(),
            decimals: 0,
            total_supply: 0,
            listing_fee: 0,
            palette: Vec::new(),
            transfer_fee,
            index_on_mint,
            accounts: Vec::new(),
            assets: Vec::new(),
            listings: Vec::new(),
            listed_ids: Vec::new(),
            index,
        };
        proof {
            let l = ledger@;
            let f = Ledger::fresh(transfer_fee as int, index_on_mint);
            assert(l.index =~= f.index);
            assert(l.holders =~= f.holders);
            assert(l.assets =~= f.assets);
        }
        ledger
    }

    /// The fee, in raw units, that the sender pays per recipient of a
    /// transfer.
    pub fn transfer_fee(&self) -> (fee: i128)
        ensures
            fee == self@.transfer_fee,
    {
        self.transfer_fee
    }
}

} // verus!
