use nft_market::{default_palette, vec_remove_once, Address, Auth, Error, SimpleTokenNft};

fn admin() -> Address {
    Address::account(0, 1)
}

fn alice() -> Address {
    Address::account(0, 2)
}

fn bob() -> Address {
    Address::account(0, 3)
}

fn by_admin() -> Auth {
    Auth::of(admin())
}

fn ledger() -> SimpleTokenNft {
    let mut l = SimpleTokenNft::new();
    l.init(&by_admin(), admin(), "Pixel".to_string(), "PXL".to_string(), 3).unwrap();
    l
}

fn pixels(seed: u8) -> Vec<u8> {
    (0..81u32).map(|i| ((i as u8).wrapping_mul(7).wrapping_add(seed)) % 32).collect()
}

fn numbered(n: u32) -> Vec<u8> {
    let mut p = vec![0u8; 81];
    p[0] = (n % 32) as u8;
    p[1] = ((n / 32) % 32) as u8;
    p[2] = ((n / 1024) % 32) as u8;
    p
}

#[test]
fn mint_returns_sequential_ids_and_rejects_duplicates() {
    let mut l = ledger();
    let content = pixels(0);
    assert!(content.iter().all(|p| *p <= 31));
    assert_eq!(content.len(), 81);
    assert_eq!(l.mint_nft(&by_admin(), alice(), content.clone()), Ok(0));
    assert_eq!(l.mint_nft(&by_admin(), alice(), content.clone()), Err(Error::DuplicateValue));
    assert_eq!(l.mint_nft(&by_admin(), bob(), content.clone()), Err(Error::DuplicateValue));
    assert_eq!(l.nft_find_by_value(&content), Some(0));
    assert_eq!(l.nft_total(), 1);
    assert_eq!(l.mint_nft(&by_admin(), bob(), pixels(1)), Ok(1));
    assert_eq!(l.mint_nft(&by_admin(), alice(), pixels(2)), Ok(2));
    assert_eq!(l.nft_total(), 3);
    assert_eq!(l.nft_find_by_value(&pixels(1)), Some(1));
    assert_eq!(l.nft_find_by_value(&pixels(2)), Some(2));
    assert_eq!(l.nft_find_by_value(&pixels(3)), None);
    assert_eq!(l.nft_ids_of(alice()), vec![0, 2]);
    assert_eq!(l.nft_ids_of(bob()), vec![1]);
    assert_eq!(l.nft_ids_of(admin()), Vec::<u32>::new());
}

#[test]
fn mint_records_owner_and_content() {
    let mut l = ledger();
    let id = l.mint_nft(&by_admin(), alice(), pixels(5)).unwrap();
    assert_eq!(l.nft_get(id), Ok((alice(), pixels(5))));
    assert_eq!(l.nft_value(id), Ok(pixels(5)));
    assert_eq!(l.nft_get(id + 1), Err(Error::NftNotFound));
    assert_eq!(l.nft_value(id + 1), Err(Error::NftNotFound));
    assert_eq!(l.nft_get(u32::MAX), Err(Error::NftNotFound));
    assert_eq!(l.market_get(id), None);
    assert_eq!(l.balance_of(alice()), 0);
}

#[test]
fn mint_needs_admin_consent() {
    let mut l = ledger();
    assert_eq!(l.mint_nft(&Auth::of(alice()), alice(), pixels(0)), Err(Error::Unauthorized));
    assert_eq!(l.mint_nft(&Auth::none(), alice(), vec![]), Err(Error::Unauthorized));
    assert_eq!(l.nft_total(), 0);
    assert_eq!(l.nft_find_by_value(&pixels(0)), None);
}

#[test]
fn mint_refuses_wrong_length() {
    let mut l = ledger();
    assert_eq!(l.mint_nft(&by_admin(), alice(), vec![0u8; 80]), Err(Error::PixelsLen81));
    assert_eq!(l.mint_nft(&by_admin(), alice(), vec![0u8; 82]), Err(Error::PixelsLen81));
    assert_eq!(l.mint_nft(&by_admin(), alice(), vec![]), Err(Error::PixelsLen81));
    assert_eq!(l.mint_nft(&by_admin(), alice(), vec![99u8; 3]), Err(Error::PixelsLen81));
    assert_eq!(l.nft_total(), 0);
}

#[test]
fn mint_refuses_entry_above_31() {
    let mut l = ledger();
    let mut content = vec![31u8; 81];
    assert_eq!(l.mint_nft(&by_admin(), alice(), content.clone()), Ok(0));
    content[80] = 32;
    assert_eq!(l.mint_nft(&by_admin(), alice(), content.clone()), Err(Error::PixelOutOfRange));
    content[80] = 31;
    content[0] = 255;
    assert_eq!(l.mint_nft(&by_admin(), alice(), content), Err(Error::PixelOutOfRange));
    assert_eq!(l.nft_total(), 1);
}

#[test]
fn mint_stops_at_the_cap() {
    let mut l = ledger();
    for n in 0..10_000u32 {
        assert_eq!(l.mint_nft(&by_admin(), alice(), numbered(n)), Ok(n));
    }
    assert_eq!(l.nft_total(), 10_000);
    assert_eq!(l.mint_nft(&by_admin(), alice(), numbered(10_000)), Err(Error::NftMaxSupReached));
    assert_eq!(l.mint_nft(&by_admin(), alice(), numbered(17)), Err(Error::DuplicateValue));
    assert_eq!(l.nft_total(), 10_000);
    assert_eq!(l.nft_find_by_value(&numbered(9_999)), Some(9_999));
    assert_eq!(l.nft_ids_of(alice()).len(), 10_000);
}

#[test]
fn mint_does_not_index_by_default() {
    let mut l = ledger();
    l.mint_nft(&by_admin(), alice(), vec![3u8; 81]).unwrap();
    for pos in [0u32, 40, 80] {
        assert_eq!(l.nft_search_pos_color(pos, 3), Ok(vec![]));
    }
}

#[test]
fn mint_indexes_every_position_when_asked() {
    let mut l = SimpleTokenNft::with_settings(1, true).unwrap();
    l.init(&by_admin(), admin(), "Pixel".to_string(), "PXL".to_string(), 3).unwrap();
    let first = pixels(0);
    let second = pixels(1);
    l.mint_nft(&by_admin(), alice(), first.clone()).unwrap();
    l.mint_nft(&by_admin(), bob(), second.clone()).unwrap();
    for pos in 0..81u32 {
        for color in 0..32u32 {
            let mut expected = Vec::new();
            if first[pos as usize] as u32 == color {
                expected.push(0);
            }
            if second[pos as usize] as u32 == color {
                expected.push(1);
            }
            assert_eq!(l.nft_search_pos_color(pos, color), Ok(expected));
        }
    }
}

#[test]
fn index_range_enters_the_positions_of_the_range() {
    let mut l = ledger();
    let content = pixels(9);
    l.mint_nft(&by_admin(), alice(), vec![1u8; 81]).unwrap();
    let id = l.mint_nft(&by_admin(), alice(), content.clone()).unwrap();
    assert_eq!(l.nft_index_range(&by_admin(), id, 10, 20), Ok(()));
    for pos in 0..81u32 {
        for color in 0..32u32 {
            let hit = (10..20).contains(&pos) && content[pos as usize] as u32 == color;
            let expected = if hit { vec![id] } else { vec![] };
            assert_eq!(l.nft_search_pos_color(pos, color), Ok(expected));
        }
    }
    assert_eq!(l.nft_index_range(&by_admin(), 0, 10, 11), Ok(()));
    assert_eq!(l.nft_search_pos_color(10, 1), Ok(vec![0]));
    assert_eq!(l.nft_index_range(&by_admin(), id, 10, 11), Ok(()));
    assert_eq!(
        l.nft_search_pos_color(10, content[10] as u32),
        Ok(vec![id, id])
    );
    assert_eq!(l.nft_get(id), Ok((alice(), content)));
}

#[test]
fn index_range_covers_whole_content() {
    let mut l = ledger();
    let id = l.mint_nft(&by_admin(), alice(), vec![6u8; 81]).unwrap();
    assert_eq!(l.nft_index_range(&by_admin(), id, 0, 81), Ok(()));
    assert_eq!(l.nft_search_pos_color(0, 6), Ok(vec![id]));
    assert_eq!(l.nft_search_pos_color(80, 6), Ok(vec![id]));
    assert_eq!(l.nft_search_pos_color(80, 5), Ok(vec![]));
}

#[test]
fn index_range_refusals() {
    let mut l = ledger();
    let id = l.mint_nft(&by_admin(), alice(), pixels(0)).unwrap();
    assert_eq!(l.nft_index_range(&by_admin(), id, 5, 5), Err(Error::BadRange));
    assert_eq!(l.nft_index_range(&by_admin(), id, 6, 5), Err(Error::BadRange));
    assert_eq!(l.nft_index_range(&by_admin(), id, 0, 82), Err(Error::BadRange));
    assert_eq!(l.nft_index_range(&Auth::none(), 77, 81, 81), Err(Error::BadRange));
    assert_eq!(l.nft_index_range(&Auth::of(alice()), id, 0, 81), Err(Error::Unauthorized));
    assert_eq!(l.nft_index_range(&by_admin(), id + 1, 0, 81), Err(Error::NftNotFound));
    for pos in 0..81u32 {
        assert_eq!(l.nft_search_pos_color(pos, pixels(0)[pos as usize] as u32), Ok(vec![]));
    }
}

#[test]
fn search_refuses_out_of_range() {
    let l = ledger();
    assert_eq!(l.nft_search_pos_color(81, 0), Err(Error::PosRange0To80));
    assert_eq!(l.nft_search_pos_color(81, 32), Err(Error::PosRange0To80));
    assert_eq!(l.nft_search_pos_color(80, 32), Err(Error::ColorRange0To31));
    assert_eq!(l.nft_search_pos_color(80, 31), Ok(vec![]));
    assert_eq!(SimpleTokenNft::new().nft_search_pos_color(0, 0), Ok(vec![]));
}

#[test]
fn asset_transfer_moves_id_between_lists() {
    let mut l = ledger();
    for seed in 0..3 {
        l.mint_nft(&by_admin(), alice(), pixels(seed)).unwrap();
    }
    l.mint_nft(&by_admin(), bob(), pixels(3)).unwrap();
    assert_eq!(l.nft_transfer(&Auth::of(alice()), alice(), bob(), 1), Ok(()));
    assert_eq!(l.nft_ids_of(alice()), vec![0, 2]);
    assert_eq!(l.nft_ids_of(bob()), vec![3, 1]);
    assert_eq!(l.nft_get(1), Ok((bob(), pixels(1))));
    assert_eq!(l.nft_get(0), Ok((alice(), pixels(0))));
    assert_eq!(l.nft_transfer(&Auth::of(bob()), bob(), alice(), 3), Ok(()));
    assert_eq!(l.nft_ids_of(alice()), vec![0, 2, 3]);
    assert_eq!(l.nft_ids_of(bob()), vec![1]);
    assert_eq!(l.nft_find_by_value(&pixels(1)), Some(1));
    assert_eq!(l.nft_total(), 4);
}

#[test]
fn asset_transfer_refusals() {
    let mut l = ledger();
    let id = l.mint_nft(&by_admin(), alice(), pixels(0)).unwrap();
    assert_eq!(l.nft_transfer(&Auth::of(bob()), alice(), bob(), id), Err(Error::Unauthorized));
    assert_eq!(l.nft_transfer(&Auth::of(alice()), alice(), alice(), id), Err(Error::SelfTransfer));
    assert_eq!(l.nft_transfer(&Auth::of(alice()), alice(), bob(), id + 1), Err(Error::NftNotFound));
    assert_eq!(l.nft_transfer(&Auth::of(bob()), bob(), alice(), id), Err(Error::NotOwner));
    assert_eq!(l.nft_transfer(&by_admin(), admin(), bob(), id), Err(Error::NotOwner));
    assert_eq!(l.nft_ids_of(alice()), vec![id]);
    assert_eq!(l.nft_ids_of(bob()), Vec::<u32>::new());
    assert_eq!(l.nft_get(id), Ok((alice(), pixels(0))));
}

#[test]
fn owner_list_and_record_agree_after_many_moves() {
    let mut l = ledger();
    let actors = [admin(), alice(), bob()];
    for seed in 0..6 {
        l.mint_nft(&by_admin(), actors[(seed % 3) as usize], pixels(seed)).unwrap();
    }
    let moves = [(0u32, 1usize), (1, 2), (2, 0), (0, 2), (5, 1), (3, 1), (0, 0)];
    for (id, to) in moves {
        let (owner, _) = l.nft_get(id).unwrap();
        let _ = l.nft_transfer(&Auth::of(owner), owner, actors[to], id);
    }
    for id in 0..6u32 {
        let (owner, _) = l.nft_get(id).unwrap();
        for actor in actors {
            let times = l.nft_ids_of(actor).iter().filter(|x| **x == id).count();
            assert_eq!(times, if actor == owner { 1 } else { 0 });
        }
    }
    let held: usize = actors.iter().map(|a| l.nft_ids_of(*a).len()).sum();
    assert_eq!(held, 6);
}

#[test]
fn palette_starts_with_defaults_and_can_be_replaced() {
    let mut l = ledger();
    assert_eq!(l.palette_get(), Ok(default_palette()));
    let new_palette: Vec<u32> = (0..32u32).map(|i| i * 0x010101).collect();
    assert_eq!(l.palette_set(&by_admin(), new_palette.clone()), Ok(()));
    assert_eq!(l.palette_get(), Ok(new_palette));
    assert_eq!(l.name(), Ok("Pixel".to_string()));
    assert_eq!(l.balance_of(admin()), 100_000_000_000_000);
}

#[test]
fn palette_set_refusals() {
    let mut l = ledger();
    assert_eq!(l.palette_set(&by_admin(), vec![0; 31]), Err(Error::Palette32Required));
    assert_eq!(l.palette_set(&by_admin(), vec![0; 33]), Err(Error::Palette32Required));
    assert_eq!(l.palette_set(&Auth::none(), vec![]), Err(Error::Palette32Required));
    assert_eq!(l.palette_set(&Auth::of(alice()), vec![0; 32]), Err(Error::Unauthorized));
    assert_eq!(l.palette_get(), Ok(default_palette()));
}

#[test]
fn default_palette_colors() {
    let p = default_palette();
    assert_eq!(p.len(), 32);
    assert_eq!(p[0], 0x000000);
    assert_eq!(p[1], 0x222034);
    assert_eq!(p[5], 0xDF7126);
    assert_eq!(p[21], 0xFFFFFF);
    assert_eq!(p[31], 0x8A6F30);
    assert_eq!(
        p,
        vec![
            0x000000, 0x222034, 0x45283C, 0x663931, 0x8F563B, 0xDF7126, 0xD9A066, 0xEEC39A,
            0xFBF236, 0x99E550, 0x6ABE30, 0x37946E, 0x4B692F, 0x524B24, 0x323C39, 0x3F3F74,
            0x306082, 0x5B6EE1, 0x639BFF, 0x5FCDE4, 0xCBDBFC, 0xFFFFFF, 0x9BADB7, 0x847E87,
            0x696A6A, 0x595652, 0x76428A, 0xAC3232, 0xD95763, 0xD77BBA, 0x8F974A, 0x8A6F30,
        ]
    );
}

#[test]
fn remove_once_takes_the_first_occurrence_only() {
    let mut v = vec![4, 7, 4, 9, 4];
    assert!(vec_remove_once(&mut v, 4));
    assert_eq!(v, vec![7, 4, 9, 4]);
    assert!(vec_remove_once(&mut v, 9));
    assert_eq!(v, vec![7, 4, 4]);
    assert!(!vec_remove_once(&mut v, 5));
    assert_eq!(v, vec![7, 4, 4]);
    assert!(vec_remove_once(&mut v, 4));
    assert!(vec_remove_once(&mut v, 4));
    assert!(vec_remove_once(&mut v, 7));
    assert_eq!(v, Vec::<u32>::new());
    assert!(!vec_remove_once(&mut v, 7));
    assert_eq!(v, Vec::<u32>::new());
}
