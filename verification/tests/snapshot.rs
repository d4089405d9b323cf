use nft_market::{Account, Address, Auth, Error, Listing, NftData, SimpleTokenNft, Snapshot};

fn admin() -> Address {
    Address::account(0, 1)
}

fn alice() -> Address {
    Address::account(0, 2)
}

fn bob() -> Address {
    Address::contract(7, 7)
}

fn pixels(seed: u8) -> Vec<u8> {
    (0..81u32).map(|i| ((i as u8).wrapping_mul(3).wrapping_add(seed)) % 32).collect()
}

/// Alice owns assets 0 and 1, asset 1 is on offer; bob owns asset 2.
fn busy() -> SimpleTokenNft {
    let mut l = SimpleTokenNft::new();
    let a = Auth::of(admin());
    l.init(&a, admin(), "Pixel".to_string(), "PXL".to_string(), 3).unwrap();
    l.transfer(&a, admin(), alice(), 1_000).unwrap();
    l.mint_nft(&a, alice(), pixels(0)).unwrap();
    l.mint_nft(&a, alice(), pixels(1)).unwrap();
    l.mint_nft(&a, bob(), pixels(2)).unwrap();
    l.nft_index_range(&a, 2, 0, 81).unwrap();
    l.market_list_nft(&Auth::of(alice()), alice(), 1, 250).unwrap();
    l
}

fn snapshot() -> Snapshot {
    busy().into_snapshot()
}

fn place(s: &Snapshot, who: Address) -> usize {
    s.accounts.iter().position(|a| a.who == who).unwrap()
}

#[test]
fn snapshot_lays_every_field_open() {
    let s = snapshot();
    assert!(s.initialized);
    assert_eq!(s.admin, admin());
    assert_eq!(s.name, "Pixel");
    assert_eq!(s.symbol, "PXL");
    assert_eq!(s.decimals, 3);
    assert_eq!(s.total_supply, 100_000_000_000_000);
    assert_eq!(s.listing_fee, 1);
    assert_eq!(s.transfer_fee, 1);
    assert!(!s.index_on_mint);
    assert_eq!(s.palette.len(), 32);
    assert_eq!(s.accounts.len(), 3);
    assert_eq!(s.accounts[place(&s, alice())].balance, 999);
    assert_eq!(s.accounts[place(&s, alice())].ids, vec![0, 1]);
    assert_eq!(s.accounts[place(&s, bob())].ids, vec![2]);
    assert_eq!(s.assets.len(), 3);
    assert_eq!(s.assets[2].owner, bob());
    assert_eq!(s.assets[2].pixels, pixels(2));
    assert_eq!(s.listings, vec![None, Some(Listing { seller: alice(), price: 250 }), None]);
    assert_eq!(s.listed_ids, vec![1]);
    assert_eq!(s.index.len(), 81 * 32);
    assert_eq!(s.index[5 * 32 + pixels(2)[5] as usize], vec![2]);
}

#[test]
fn restore_brings_the_ledger_back() {
    let l = snapshot().restore().unwrap();
    assert_eq!(l.balance_of(alice()), 999);
    assert_eq!(l.balance_of(admin()), 100_000_000_000_000 - 999);
    assert_eq!(l.nft_ids_of(alice()), vec![0, 1]);
    assert_eq!(l.nft_ids_of(bob()), vec![2]);
    assert_eq!(l.market_get(1), Some((alice(), 250)));
    assert_eq!(l.market_list_ids(), vec![1]);
    assert_eq!(l.nft_search_pos_color(80, pixels(2)[80] as u32), Ok(vec![2]));
    assert_eq!(l.name(), Ok("Pixel".to_string()));
    let mut l = l;
    assert_eq!(l.market_buy(&Auth::of(bob()), bob(), 1), Err(Error::InsufficientBalance));
    assert_eq!(l.transfer(&Auth::of(alice()), alice(), bob(), 500), Ok(()));
    assert_eq!(l.market_buy(&Auth::of(bob()), bob(), 1), Ok(()));
    assert_eq!(l.nft_ids_of(bob()), vec![2, 1]);
}

#[test]
fn restore_of_a_fresh_ledger() {
    let s = SimpleTokenNft::new().into_snapshot();
    assert!(s.is_wf());
    assert!(!s.initialized);
    let l = s.restore().unwrap();
    assert_eq!(l.admin(), None);
    assert_eq!(l.nft_total(), 0);
}

#[test]
fn every_check_accepts_a_ledgers_snapshot() {
    let s = snapshot();
    assert!(s.holders_ok());
    assert!(s.funds_ok());
    assert!(s.assets_ok());
    assert!(s.ownership_ok());
    assert!(s.market_ok());
    assert!(s.index_ok());
    assert!(s.is_wf());
}

#[test]
fn restore_refuses_two_records_of_one_actor() {
    let mut s = snapshot();
    s.accounts.push(Account { who: alice(), balance: 0, ids: vec![] });
    assert!(!s.holders_ok());
    assert!(s.restore().is_none());
}

#[test]
fn restore_refuses_a_negative_balance() {
    let mut s = snapshot();
    let (a, b) = (place(&s, alice()), place(&s, admin()));
    s.accounts[a].balance = -1;
    s.accounts[b].balance += 1_000;
    assert!(!s.holders_ok());
    assert!(s.restore().is_none());
}

#[test]
fn restore_refuses_balances_that_miss_the_supply() {
    let mut s = snapshot();
    let a = place(&s, alice());
    s.accounts[a].balance += 1;
    assert!(s.holders_ok());
    assert!(!s.funds_ok());
    assert!(s.restore().is_none());
    let mut s = snapshot();
    s.accounts[a].balance = i128::MAX;
    assert!(!s.funds_ok());
    let mut s = snapshot();
    s.accounts[a].balance -= 1;
    assert!(!s.funds_ok());
}

#[test]
fn restore_refuses_wrong_settings() {
    let mut s = snapshot();
    s.decimals = 2;
    assert!(!s.funds_ok());
    let mut s = snapshot();
    s.total_supply = 5;
    assert!(!s.funds_ok());
    let mut s = snapshot();
    s.listing_fee = -1;
    assert!(!s.funds_ok());
    let mut s = snapshot();
    s.transfer_fee = -1;
    assert!(!s.funds_ok());
    let mut s = snapshot();
    s.palette.pop();
    assert!(!s.funds_ok());
    assert!(s.restore().is_none());
    let mut s = snapshot();
    s.initialized = false;
    assert!(!s.funds_ok());
    let mut s = SimpleTokenNft::new().into_snapshot();
    s.listing_fee = 1;
    assert!(!s.funds_ok());
    assert!(s.restore().is_none());
}

#[test]
fn restore_refuses_bad_content() {
    let mut s = snapshot();
    s.assets[0].pixels.pop();
    assert!(!s.assets_ok());
    let mut s = snapshot();
    s.assets[0].pixels[3] = 32;
    assert!(!s.assets_ok());
    let mut s = snapshot();
    s.assets[2].pixels = pixels(0);
    assert!(!s.assets_ok());
    assert!(s.restore().is_none());
}

#[test]
fn restore_refuses_lists_that_disagree_with_owners() {
    let mut s = snapshot();
    s.assets[0].owner = bob();
    assert!(!s.ownership_ok());
    let mut s = snapshot();
    let a = place(&s, alice());
    s.accounts[a].ids = vec![0];
    assert!(!s.ownership_ok());
    let mut s = snapshot();
    s.accounts[a].ids = vec![0, 1, 1];
    assert!(!s.ownership_ok());
    let mut s = snapshot();
    s.accounts[a].ids = vec![0, 1, 3];
    assert!(!s.ownership_ok());
    let mut s = snapshot();
    let b = place(&s, bob());
    s.accounts.remove(b);
    assert!(!s.ownership_ok());
    assert!(s.restore().is_none());
}

#[test]
fn restore_refuses_a_market_out_of_step() {
    let mut s = snapshot();
    s.listings.pop();
    assert!(!s.market_ok());
    let mut s = snapshot();
    s.listings[1] = Some(Listing { seller: bob(), price: 250 });
    assert!(!s.market_ok());
    let mut s = snapshot();
    s.listings[1] = Some(Listing { seller: alice(), price: 0 });
    assert!(!s.market_ok());
    let mut s = snapshot();
    s.listed_ids.clear();
    assert!(!s.market_ok());
    let mut s = snapshot();
    s.listed_ids = vec![1, 1];
    assert!(!s.market_ok());
    let mut s = snapshot();
    s.listed_ids = vec![1, 0];
    assert!(!s.market_ok());
    let mut s = snapshot();
    s.listed_ids = vec![1, 9];
    assert!(!s.market_ok());
    assert!(s.restore().is_none());
}

#[test]
fn restore_refuses_a_wrong_index() {
    let mut s = snapshot();
    s.index.pop();
    assert!(!s.index_ok());
    let mut s = snapshot();
    s.index[0].push(3);
    assert!(!s.index_ok());
    let mut s = snapshot();
    let wrong = (pixels(0)[0] as usize + 1) % 32;
    s.index[wrong].push(0);
    assert!(!s.index_ok());
    assert!(s.restore().is_none());
    let mut s = snapshot();
    s.index[pixels(0)[0] as usize].push(0);
    assert!(s.index_ok());
    assert!(s.restore().is_some());
}

#[test]
fn restore_keeps_assets_of_more_than_one_record() {
    let mut s = snapshot();
    let extra = NftData { owner: admin(), pixels: pixels(9) };
    s.assets.push(extra);
    s.listings.push(None);
    assert!(!s.ownership_ok());
    let a = place(&s, admin());
    s.accounts[a].ids.push(3);
    assert!(s.is_wf());
    let l = s.restore().unwrap();
    assert_eq!(l.nft_ids_of(admin()), vec![3]);
    assert_eq!(l.nft_find_by_value(&pixels(9)), Some(3));
}

#[test]
fn settings_are_fixed_when_the_ledger_is_made() {
    assert!(matches!(SimpleTokenNft::with_settings(-1, false), Err(Error::BadFee)));
    let mut l = SimpleTokenNft::with_settings(100, false).unwrap();
    assert_eq!(l.transfer_fee(), 100);
    assert_eq!(SimpleTokenNft::new().transfer_fee(), 1);
    let a = Auth::of(admin());
    l.init(&a, admin(), "Pixel".to_string(), "PXL".to_string(), 3).unwrap();
    l.transfer(&a, admin(), alice(), 1_000).unwrap();
    assert_eq!(l.balance_of(alice()), 1_000);
    assert_eq!(l.transfer(&Auth::of(alice()), alice(), bob(), 901), Err(Error::InsufficientBalanceWithFee));
    assert_eq!(l.transfer(&Auth::of(alice()), alice(), bob(), 500), Ok(()));
    assert_eq!(l.balance_of(alice()), 400);
    assert_eq!(l.balance_of(bob()), 500);
    assert_eq!(l.balance_of(admin()), 100_000_000_000_000 - 900);
    assert_eq!(
        l.transfer_batch(&Auth::of(alice()), alice(), &vec![bob(), admin()], &vec![100, 100]),
        Ok(200)
    );
    assert_eq!(l.balance_of(alice()), 0);
    assert_eq!(l.transfer_fee(), 100);
}

#[test]
fn a_ledger_without_transfer_fee() {
    let mut l = SimpleTokenNft::with_settings(0, false).unwrap();
    let a = Auth::of(admin());
    l.init(&a, admin(), "Pixel".to_string(), "PXL".to_string(), 3).unwrap();
    l.transfer(&a, admin(), alice(), 10).unwrap();
    assert_eq!(l.transfer(&Auth::of(alice()), alice(), bob(), 10), Ok(()));
    assert_eq!(l.balance_of(alice()), 0);
    assert_eq!(
        l.transfer(&Auth::of(bob()), bob(), alice(), i128::MAX),
        Err(Error::InsufficientBalanceWithFee)
    );
    assert_eq!(l.transfer_batch(&Auth::of(bob()), bob(), &vec![alice()], &vec![10]), Ok(0));
}

#[test]
fn fees_of_a_batch_can_overflow() {
    let mut l = SimpleTokenNft::with_settings(i128::MAX, false).unwrap();
    let a = Auth::of(admin());
    l.init(&a, admin(), "Pixel".to_string(), "PXL".to_string(), 3).unwrap();
    assert_eq!(l.transfer(&a, admin(), alice(), 1), Err(Error::FeeAddOverflow));
    assert_eq!(
        l.transfer_batch(&a, admin(), &vec![alice(), bob()], &vec![1, 1]),
        Err(Error::FeeMulOverflow)
    );
    assert_eq!(
        l.transfer_batch(&a, admin(), &vec![alice()], &vec![1]),
        Err(Error::TotalDeductOverflow)
    );
    assert_eq!(l.balance_of(admin()), 100_000_000_000_000);
    assert_eq!(l.balance_of(alice()), 0);
}
