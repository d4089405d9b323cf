use nft_market::{Address, Auth, Error, SimpleTokenNft};

fn admin() -> Address {
    Address::account(0, 1)
}

fn seller() -> Address {
    Address::account(0, 2)
}

fn buyer() -> Address {
    Address::account(0, 3)
}

fn other() -> Address {
    Address::account(9, 0)
}

fn by(who: Address) -> Auth {
    Auth::of(who)
}

fn pixels(seed: u8) -> Vec<u8> {
    (0..81u32).map(|i| ((i as u8).wrapping_mul(5).wrapping_add(seed)) % 32).collect()
}

/// Seller owns assets 0 and 1 and holds 100; buyer holds 5000.
fn market() -> SimpleTokenNft {
    let mut l = SimpleTokenNft::new();
    l.init(&by(admin()), admin(), "Pixel".to_string(), "PXL".to_string(), 3).unwrap();
    l.transfer(&by(admin()), admin(), seller(), 100).unwrap();
    l.transfer(&by(admin()), admin(), buyer(), 5000).unwrap();
    l.mint_nft(&by(admin()), seller(), pixels(0)).unwrap();
    l.mint_nft(&by(admin()), seller(), pixels(1)).unwrap();
    l
}

#[test]
fn list_then_buy_moves_funds_asset_and_clears_listing() {
    let mut l = market();
    let admin_before = l.balance_of(admin());
    assert_eq!(l.market_list_nft(&by(seller()), seller(), 0, 1000), Ok(()));
    assert_eq!(l.market_get(0), Some((seller(), 1000)));
    assert_eq!(l.market_list_ids(), vec![0]);
    assert_eq!(l.balance_of(seller()), 99);
    assert_eq!(l.balance_of(admin()), admin_before + 1);
    assert_eq!(l.market_buy(&by(buyer()), buyer(), 0), Ok(()));
    assert_eq!(l.balance_of(buyer()), 4000);
    assert_eq!(l.balance_of(seller()), 1099);
    assert_eq!(l.balance_of(admin()), admin_before + 1);
    assert_eq!(l.nft_ids_of(seller()), vec![1]);
    assert_eq!(l.nft_ids_of(buyer()), vec![0]);
    assert_eq!(l.nft_get(0), Ok((buyer(), pixels(0))));
    assert_eq!(l.market_get(0), None);
    assert_eq!(l.market_list_ids(), Vec::<u32>::new());
}

#[test]
fn list_charges_the_current_fee() {
    let mut l = market();
    let admin_before = l.balance_of(admin());
    assert_eq!(l.listing_fee_set(&by(admin()), 40), Ok(()));
    assert_eq!(l.listing_fee_get(), 40);
    assert_eq!(l.market_list_nft(&by(seller()), seller(), 1, 7), Ok(()));
    assert_eq!(l.balance_of(seller()), 60);
    assert_eq!(l.balance_of(admin()), admin_before + 40);
    assert_eq!(l.market_get(1), Some((seller(), 7)));
}

#[test]
fn list_without_fee_needs_no_funds() {
    let mut l = market();
    l.listing_fee_set(&by(admin()), 0).unwrap();
    l.nft_transfer(&by(seller()), seller(), other(), 0).unwrap();
    assert_eq!(l.balance_of(other()), 0);
    assert_eq!(l.market_list_nft(&by(other()), other(), 0, 5), Ok(()));
    assert_eq!(l.balance_of(other()), 0);
    assert_eq!(l.market_list_ids(), vec![0]);
}

#[test]
fn list_by_admin_returns_the_fee_to_admin() {
    let mut l = market();
    let id = l.mint_nft(&by(admin()), admin(), pixels(2)).unwrap();
    let admin_before = l.balance_of(admin());
    assert_eq!(l.market_list_nft(&by(admin()), admin(), id, 5), Ok(()));
    assert_eq!(l.balance_of(admin()), admin_before);
}

#[test]
fn list_refusals() {
    let mut l = market();
    assert_eq!(l.market_list_nft(&by(buyer()), seller(), 0, 10), Err(Error::Unauthorized));
    assert_eq!(l.market_list_nft(&by(seller()), seller(), 0, 0), Err(Error::BadPrice));
    assert_eq!(l.market_list_nft(&by(seller()), seller(), 0, -1), Err(Error::BadPrice));
    assert_eq!(l.market_list_nft(&by(seller()), seller(), 2, 10), Err(Error::NftNotFound));
    assert_eq!(l.market_list_nft(&by(buyer()), buyer(), 0, 10), Err(Error::NotOwner));
    l.listing_fee_set(&by(admin()), 101).unwrap();
    assert_eq!(l.market_list_nft(&by(seller()), seller(), 0, 10), Err(Error::InsufficientForFee));
    l.nft_transfer(&by(seller()), seller(), other(), 1).unwrap();
    assert_eq!(l.market_list_nft(&by(other()), other(), 1, 10), Err(Error::InsufficientForFee));
    l.listing_fee_set(&by(admin()), 100).unwrap();
    assert_eq!(l.market_list_nft(&by(seller()), seller(), 0, 10), Ok(()));
    assert_eq!(l.balance_of(seller()), 0);
    assert_eq!(l.market_list_nft(&by(seller()), seller(), 0, 10), Err(Error::AlreadyListed));
    assert_eq!(l.market_list_ids(), vec![0]);
    assert_eq!(l.market_get(1), None);
}

#[test]
fn listing_fee_set_refusals() {
    let mut l = market();
    assert_eq!(l.listing_fee_set(&by(admin()), -1), Err(Error::BadFee));
    assert_eq!(l.listing_fee_set(&Auth::none(), -1), Err(Error::BadFee));
    assert_eq!(l.listing_fee_set(&by(seller()), 5), Err(Error::Unauthorized));
    assert_eq!(l.listing_fee_get(), 1);
    assert_eq!(l.listing_fee_set(&by(admin()), i128::MAX), Ok(()));
    assert_eq!(l.listing_fee_get(), i128::MAX);
}

#[test]
fn cancel_removes_listing_without_refund() {
    let mut l = market();
    l.market_list_nft(&by(seller()), seller(), 0, 1000).unwrap();
    l.market_list_nft(&by(seller()), seller(), 1, 2000).unwrap();
    assert_eq!(l.market_list_ids(), vec![0, 1]);
    assert_eq!(l.balance_of(seller()), 98);
    assert_eq!(l.market_cancel(&by(seller()), seller(), 0), Ok(()));
    assert_eq!(l.market_get(0), None);
    assert_eq!(l.market_get(1), Some((seller(), 2000)));
    assert_eq!(l.market_list_ids(), vec![1]);
    assert_eq!(l.balance_of(seller()), 98);
    assert_eq!(l.nft_ids_of(seller()), vec![0, 1]);
    assert_eq!(l.market_list_nft(&by(seller()), seller(), 0, 3000), Ok(()));
    assert_eq!(l.market_list_ids(), vec![1, 0]);
    assert_eq!(l.balance_of(seller()), 97);
}

#[test]
fn cancel_refusals() {
    let mut l = market();
    l.market_list_nft(&by(seller()), seller(), 0, 1000).unwrap();
    assert_eq!(l.market_cancel(&by(buyer()), seller(), 0), Err(Error::Unauthorized));
    assert_eq!(l.market_cancel(&by(seller()), seller(), 1), Err(Error::NotListed));
    assert_eq!(l.market_cancel(&by(seller()), seller(), 99), Err(Error::NotListed));
    assert_eq!(l.market_cancel(&by(buyer()), buyer(), 0), Err(Error::NotSeller));
    assert_eq!(l.market_cancel(&by(admin()), admin(), 0), Err(Error::NotSeller));
    assert_eq!(l.market_get(0), Some((seller(), 1000)));
    assert_eq!(l.market_list_ids(), vec![0]);
}

#[test]
fn buy_refusals() {
    let mut l = market();
    l.market_list_nft(&by(seller()), seller(), 0, 1000).unwrap();
    assert_eq!(l.market_buy(&by(seller()), buyer(), 0), Err(Error::Unauthorized));
    assert_eq!(l.market_buy(&by(buyer()), buyer(), 1), Err(Error::NotListed));
    assert_eq!(l.market_buy(&by(buyer()), buyer(), 7), Err(Error::NotListed));
    assert_eq!(l.market_buy(&by(seller()), seller(), 0), Err(Error::SelfBuy));
    assert_eq!(l.market_buy(&by(other()), other(), 0), Err(Error::InsufficientBalance));
    assert_eq!(l.market_get(0), Some((seller(), 1000)));
    assert_eq!(l.nft_get(0), Ok((seller(), pixels(0))));
}

#[test]
fn failed_buy_changes_nothing() {
    let mut l = market();
    l.market_list_nft(&by(seller()), seller(), 0, 5001).unwrap();
    l.market_list_nft(&by(seller()), seller(), 1, 1).unwrap();
    let listing = l.market_get(0);
    let ids = l.market_list_ids();
    let seller_ids = l.nft_ids_of(seller());
    let record = l.nft_get(0);
    let balances = [l.balance_of(admin()), l.balance_of(seller()), l.balance_of(buyer())];
    assert_eq!(l.market_buy(&by(buyer()), buyer(), 0), Err(Error::InsufficientBalance));
    assert_eq!(l.market_get(0), listing);
    assert_eq!(l.market_get(0), Some((seller(), 5001)));
    assert_eq!(l.market_list_ids(), ids);
    assert_eq!(l.market_list_ids(), vec![0, 1]);
    assert_eq!(l.nft_ids_of(seller()), seller_ids);
    assert_eq!(l.nft_ids_of(buyer()), Vec::<u32>::new());
    assert_eq!(l.nft_get(0), record);
    assert_eq!(
        [l.balance_of(admin()), l.balance_of(seller()), l.balance_of(buyer())],
        balances
    );
}

#[test]
fn buy_at_exact_balance() {
    let mut l = market();
    l.market_list_nft(&by(seller()), seller(), 1, 5000).unwrap();
    assert_eq!(l.market_buy(&by(buyer()), buyer(), 1), Ok(()));
    assert_eq!(l.balance_of(buyer()), 0);
    assert_eq!(l.balance_of(seller()), 5099);
    assert_eq!(l.nft_ids_of(buyer()), vec![1]);
    assert_eq!(l.nft_ids_of(seller()), vec![0]);
}

#[test]
fn buy_removes_only_the_bought_listing() {
    let mut l = market();
    let third = l.mint_nft(&by(admin()), seller(), pixels(2)).unwrap();
    l.market_list_nft(&by(seller()), seller(), 1, 10).unwrap();
    l.market_list_nft(&by(seller()), seller(), third, 20).unwrap();
    l.market_list_nft(&by(seller()), seller(), 0, 30).unwrap();
    assert_eq!(l.market_list_ids(), vec![1, third, 0]);
    assert_eq!(l.market_buy(&by(buyer()), buyer(), third), Ok(()));
    assert_eq!(l.market_list_ids(), vec![1, 0]);
    assert_eq!(l.market_get(1), Some((seller(), 10)));
    assert_eq!(l.market_get(0), Some((seller(), 30)));
    assert_eq!(l.market_get(third), None);
    assert_eq!(l.nft_ids_of(seller()), vec![0, 1]);
    assert_eq!(l.nft_ids_of(buyer()), vec![third]);
}

#[test]
fn listed_asset_cannot_be_transferred_until_cleared() {
    let mut l = market();
    l.market_list_nft(&by(seller()), seller(), 0, 1000).unwrap();
    assert_eq!(l.nft_transfer(&by(seller()), seller(), other(), 0), Err(Error::Listed));
    assert_eq!(l.nft_transfer(&by(buyer()), buyer(), other(), 0), Err(Error::Listed));
    assert_eq!(l.nft_transfer(&by(seller()), seller(), other(), 1), Ok(()));
    assert_eq!(l.nft_transfer(&by(seller()), seller(), other(), 0), Err(Error::Listed));
    l.market_cancel(&by(seller()), seller(), 0).unwrap();
    assert_eq!(l.nft_transfer(&by(seller()), seller(), other(), 0), Ok(()));
    assert_eq!(l.nft_ids_of(other()), vec![1, 0]);
}

#[test]
fn bought_asset_can_be_transferred_by_the_buyer() {
    let mut l = market();
    l.market_list_nft(&by(seller()), seller(), 0, 1000).unwrap();
    assert_eq!(l.nft_transfer(&by(seller()), seller(), other(), 0), Err(Error::Listed));
    l.market_buy(&by(buyer()), buyer(), 0).unwrap();
    assert_eq!(l.nft_transfer(&by(seller()), seller(), other(), 0), Err(Error::NotOwner));
    assert_eq!(l.nft_transfer(&by(buyer()), buyer(), other(), 0), Ok(()));
    assert_eq!(l.nft_get(0), Ok((other(), pixels(0))));
}

#[test]
fn buyer_can_list_again() {
    let mut l = market();
    l.market_list_nft(&by(seller()), seller(), 0, 1000).unwrap();
    l.market_buy(&by(buyer()), buyer(), 0).unwrap();
    assert_eq!(l.market_list_nft(&by(seller()), seller(), 0, 5), Err(Error::NotOwner));
    assert_eq!(l.market_list_nft(&by(buyer()), buyer(), 0, 1500), Ok(()));
    assert_eq!(l.market_get(0), Some((buyer(), 1500)));
    assert_eq!(l.market_buy(&by(seller()), seller(), 0), Err(Error::InsufficientBalance));
    l.transfer(&by(admin()), admin(), seller(), 1000).unwrap();
    assert_eq!(l.market_buy(&by(seller()), seller(), 0), Ok(()));
    assert_eq!(l.nft_ids_of(seller()), vec![1, 0]);
    assert_eq!(l.balance_of(seller()), 599);
    assert_eq!(l.balance_of(buyer()), 5499);
}
