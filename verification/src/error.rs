//! The named conditions under which an operation is refused.

use vstd::prelude::*;

verus! {

/// Why an operation was refused. A refused operation changes nothing.
#[derive(Clone, Copy, Debug, PartialEq, Eq, Structural)]
pub enum Error {
    /// The actor whose consent the operation needs did not give it.
    Unauthorized,
    /// The ledger was initialised before.
    AlreadyInit,
    /// The decimal precision is not 3.
    DecimalsMustBe3,
    /// The ledger has not been initialised.
    NotInited,
    /// A transfer amount is zero or negative.
    BadAmount,
    /// Sender and recipient are the same actor.
    SelfTransfer,
    /// Amount plus fee exceeds the integer range.
    FeeAddOverflow,
    /// The sender cannot cover the amount and the fee.
    InsufficientBalanceWithFee,
    /// A batch names no recipient.
    EmptyBatch,
    /// A batch has not as many amounts as recipients.
    LengthMismatch,
    /// An amount of a batch is zero or negative.
    BadAmountAt,
    /// A recipient of a batch is the sender.
    SelfTransferAt,
    /// The amounts of a batch sum to more than the integer range holds.
    AmountSumOverflow,
    /// The fees of a batch exceed the integer range.
    FeeMulOverflow,
    /// The amounts of a batch plus its fees exceed the integer range.
    TotalDeductOverflow,
    /// A content buffer has not exactly 81 entries.
    PixelsLen81,
    /// An entry of a content buffer is above 31.
    PixelOutOfRange,
    /// An asset with the same content exists.
    DuplicateValue,
    /// The cap on minted assets is reached.
    NftMaxSupReached,
    /// A range of content positions is empty or reaches past the content.
    BadRange,
    /// No asset has this id.
    NftNotFound,
    /// The asset is listed for sale and cannot be transferred directly.
    Listed,
    /// The actor does not own the asset.
    NotOwner,
    /// A content position is above 80.
    PosRange0To80,
    /// A colour is above 31.
    ColorRange0To31,
    /// A palette has not exactly 32 entries.
    Palette32Required,
    /// A fee is negative.
    BadFee,
    /// A price is zero or negative.
    BadPrice,
    /// The asset is listed already.
    AlreadyListed,
    /// The seller cannot cover the listing fee.
    InsufficientForFee,
    /// The asset is not listed.
    NotListed,
    /// The actor is not the seller of the listing.
    NotSeller,
    /// The buyer is the seller.
    SelfBuy,
    /// The buyer cannot cover the price.
    InsufficientBalance,
    /// The token has no name yet.
    NoName,
    /// The token has no symbol yet.
    NoSymbol,
    /// The token has no precision yet.
    NoDecimals,
    /// The token has no supply yet.
    NoSupply,
    /// The ledger has no palette yet.
    NoPalette,
}

impl Error {
    /// The name under which the condition is reported.
    pub open spec fn text(self) -> Seq<char> {
        match self {
            Error::Unauthorized => "UNAUTHORIZED"@,
            Error::AlreadyInit => "ALREADY_INIT"@,
            Error::DecimalsMustBe3 => "DECIMALS_MUST_BE_3"@,
            Error::NotInited => "NOT_INITED"@,
            Error::BadAmount => "BAD_AMOUNT"@,
            Error::SelfTransfer => "SELF_TRANSFER"@,
            Error::FeeAddOverflow => "FEE_ADD_OVERFLOW"@,
            Error::InsufficientBalanceWithFee => "INSUFFICIENT_BALANCE_WITH_FEE"@,
            Error::EmptyBatch => "EMPTY_BATCH"@,
            Error::LengthMismatch => "LENGTH_MISMATCH"@,
            Error::BadAmountAt => "BAD_AMOUNT_AT"@,
            Error::SelfTransferAt => "SELF_TRANSFER_AT"@,
            Error::AmountSumOverflow => "AMOUNT_SUM_OVERFLOW"@,
            Error::FeeMulOverflow => "FEE_MUL_OVERFLOW"@,
            Error::TotalDeductOverflow => "TOTAL_DEDUCT_OVERFLOW"@,
            Error::PixelsLen81 => "PIXELS_LEN_81"@,
            Error::PixelOutOfRange => "PIXEL_OUT_OF_RANGE"@,
            Error::DuplicateValue => "DUPLICATE_VALUE"@,
            Error::NftMaxSupReached => "NFT_MAX_SUP_REACHED"@,
            Error::BadRange => "BAD_RANGE"@,
            Error::NftNotFound => "NFT_NOT_FOUND"@,
            Error::Listed => "LISTED"@,
            Error::NotOwner => "NOT_OWNER"@,
            Error::PosRange0To80 => "POS_RANGE_0_80"@,
            Error::ColorRange0To31 => "COLOR_RANGE_0_31"@,
            Error::Palette32Required => "PALETTE_32_REQUIRED"@,
            Error::BadFee => "BAD_FEE"@,
            Error::BadPrice => "BAD_PRICE"@,
            Error::AlreadyListed => "ALREADY_LISTED"@,
            Error::InsufficientForFee => "INSUFFICIENT_FOR_FEE"@,
            Error::NotListed => "NOT_LISTED"@,
            Error::NotSeller => "NOT_SELLER"@,
            Error::SelfBuy => "SELF_BUY"@,
            Error::InsufficientBalance => "INSUFFICIENT_BALANCE"@,
            Error::NoName => "NO_NAME"@,
            Error::NoSymbol => "NO_SYMBOL"@,
            Error::NoDecimals => "NO_DECIMALS"@,
            Error::NoSupply => "NO_SUPPLY"@,
            Error::NoPalette => "NO_PALETTE"@,
        }
    }

    /// The name under which the condition is reported.
    pub fn message(&self) -> (name: &'static str)
        ensures
            name@ == self.text(),
    {
        match self {
            Error::Unauthorized => "UNAUTHORIZED",
            Error::AlreadyInit => "ALREADY_INIT",
            Error::DecimalsMustBe3 => "DECIMALS_MUST_BE_3",
            Error::NotInited => "NOT_INITED",
            Error::BadAmount => "BAD_AMOUNT",
            Error::SelfTransfer => "SELF_TRANSFER",
            Error::FeeAddOverflow => "FEE_ADD_OVERFLOW",
            Error::InsufficientBalanceWithFee => "INSUFFICIENT_BALANCE_WITH_FEE",
            Error::EmptyBatch => "EMPTY_BATCH",
            Error::LengthMismatch => "LENGTH_MISMATCH",
            Error::BadAmountAt => "BAD_AMOUNT_AT",
            Error::SelfTransferAt => "SELF_TRANSFER_AT",
            Error::AmountSumOverflow => "AMOUNT_SUM_OVERFLOW",
            Error::FeeMulOverflow => "FEE_MUL_OVERFLOW",
            Error::TotalDeductOverflow => "TOTAL_DEDUCT_OVERFLOW",
            Error::PixelsLen81 => "PIXELS_LEN_81",
            Error::PixelOutOfRange => "PIXEL_OUT_OF_RANGE",
            Error::DuplicateValue => "DUPLICATE_VALUE",
            Error::NftMaxSupReached => "NFT_MAX_SUP_REACHED",
            Error::BadRange => "BAD_RANGE",
            Error::NftNotFound => "NFT_NOT_FOUND",
            Error::Listed => "LISTED",
            Error::NotOwner => "NOT_OWNER",
            Error::PosRange0To80 => "POS_RANGE_0_80",
            Error::ColorRange0To31 => "COLOR_RANGE_0_31",
            Error::Palette32Required => "PALETTE_32_REQUIRED",
            Error::BadFee => "BAD_FEE",
            Error::BadPrice => "BAD_PRICE",
            Error::AlreadyListed => "ALREADY_LISTED",
            Error::InsufficientForFee => "INSUFFICIENT_FOR_FEE",
            Error::NotListed => "NOT_LISTED",
            Error::NotSeller => "NOT_SELLER",
            Error::SelfBuy => "SELF_BUY",
            Error::InsufficientBalance => "INSUFFICIENT_BALANCE",
            Error::NoName => "NO_NAME",
            Error::NoSymbol => "NO_SYMBOL",
            Error::NoDecimals => "NO_DECIMALS",
            Error::NoSupply => "NO_SUPPLY",
            Error::NoPalette => "NO_PALETTE",
        }
    }
}

} // verus!
