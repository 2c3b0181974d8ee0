use escrow::error::EscrowError;
use escrow::instructions::make::Make;
use escrow::instructions::refund::Refund;
use escrow::instructions::take::Take;
use escrow::ledger::Ledger;
use escrow::state::{derive_authority, Authority, Escrow, EscrowKey};
use escrow::{make, refund, take};

const MAKER: u64 = 1;
const TAKER: u64 = 2;
const MINT_A: u64 = 10;
const MINT_B: u64 = 20;

#[derive(Clone, Copy)]
struct Ids {
    maker_a: usize,
    maker_b: usize,
    taker_a: usize,
    taker_b: usize,
}

struct World {
    ledger: Ledger,
    ids: Ids,
}

fn world(maker_a: u64, taker_b: u64) -> World {
    let mut ledger = Ledger::new();
    let maker_a = ledger.create_holding(MAKER, MINT_A, maker_a);
    let maker_b = ledger.create_holding(MAKER, MINT_B, 0);
    let taker_a = ledger.create_holding(TAKER, MINT_A, 0);
    let taker_b = ledger.create_holding(TAKER, MINT_B, taker_b);
    World { ledger, ids: Ids { maker_a, maker_b, taker_a, taker_b } }
}

fn make_ctx(w: &Ids) -> Make {
    Make { maker: MAKER, mint_a: MINT_A, mint_b: MINT_B, maker_ata_a: w.maker_a }
}

fn take_ctx(w: &Ids, seed: u64) -> Take {
    Take {
        taker: TAKER,
        escrow: EscrowKey { maker: MAKER, seed },
        mint_a: MINT_A,
        mint_b: MINT_B,
        taker_ata_a: w.taker_a,
        taker_ata_b: w.taker_b,
        maker_ata_b: w.maker_b,
    }
}

fn refund_ctx(w: &Ids, signer: u64, seed: u64) -> Refund {
    Refund { maker: signer, escrow: EscrowKey { maker: MAKER, seed }, mint_a: MINT_A, maker_ata_a: w.maker_a }
}

#[test]
fn open_settle_then_retry_fails() {
    let mut w = world(100, 50);
    let vault = make(&mut w.ledger, &make_ctx(&w.ids), 1, 50, 100).unwrap();
    assert_eq!(w.ledger.balance(vault), 100);
    let tk = take_ctx(&w.ids, 1);
    assert_eq!(take(&mut w.ledger, &tk), Ok(100));
    assert_eq!(w.ledger.balance(w.ids.maker_b), 50);
    assert_eq!(w.ledger.balance(w.ids.taker_a), 100);
    assert_eq!(w.ledger.balance(w.ids.taker_b), 0);
    assert!(!w.ledger.is_open(MAKER, 1));
    assert!(!w.ledger.is_live(vault));
    assert_eq!(take(&mut w.ledger, &tk), Err(EscrowError::RecordNotFound));
    assert_eq!(refund(&mut w.ledger, &refund_ctx(&w.ids, MAKER, 1)), Err(EscrowError::RecordNotFound));
    assert_eq!(w.ledger.balance(w.ids.maker_b), 50);
    assert_eq!(w.ledger.balance(w.ids.taker_a), 100);
}

#[test]
fn open_cancel_by_stranger_then_maker() {
    let mut w = world(10, 0);
    let vault = make(&mut w.ledger, &make_ctx(&w.ids), 2, 5, 10).unwrap();
    assert_eq!(w.ledger.balance(w.ids.maker_a), 0);
    assert_eq!(refund(&mut w.ledger, &refund_ctx(&w.ids, TAKER, 2)), Err(EscrowError::InvalidMaker));
    assert_eq!(w.ledger.balance(vault), 10);
    assert!(w.ledger.is_open(MAKER, 2));
    assert_eq!(refund(&mut w.ledger, &refund_ctx(&w.ids, MAKER, 2)), Ok(10));
    assert_eq!(w.ledger.balance(w.ids.maker_a), 10);
    assert!(!w.ledger.is_open(MAKER, 2));
    assert!(!w.ledger.is_live(vault));
    assert_eq!(refund(&mut w.ledger, &refund_ctx(&w.ids, MAKER, 2)), Err(EscrowError::RecordNotFound));
    assert_eq!(take(&mut w.ledger, &take_ctx(&w.ids, 2)), Err(EscrowError::RecordNotFound));
    assert_eq!(w.ledger.balance(w.ids.maker_a), 10);
}

#[test]
fn open_stores_exact_record_and_vault() {
    let mut w = world(500, 0);
    let ctx = make_ctx(&w.ids);
    let before = w.ledger.num_accounts();
    let vault = make(&mut w.ledger, &ctx, 7, 33, 120).unwrap();
    assert_eq!(vault, before);
    assert_eq!(w.ledger.balance(vault), 120);
    assert_eq!(w.ledger.balance(w.ids.maker_a), 380);
    let offer = w.ledger.offers[0];
    assert_eq!(
        offer.escrow,
        Escrow { seed: 7, maker: MAKER, mint_a: MINT_A, mint_b: MINT_B, receive: 33, bump: 255 }
    );
    assert_eq!(offer.vault, vault);
    assert!(w.ledger.holds(vault, derive_authority(MAKER, 7).0, MINT_A));
    assert!(!w.ledger.holds(vault, Authority::User(MAKER), MINT_A));
}

#[test]
fn open_rejects_zero_amounts() {
    let mut w = world(100, 0);
    let ctx = make_ctx(&w.ids);
    assert_eq!(make(&mut w.ledger, &ctx, 1, 0, 10), Err(EscrowError::InvalidAmount));
    assert_eq!(make(&mut w.ledger, &ctx, 1, 10, 0), Err(EscrowError::InvalidAmount));
    assert_eq!(w.ledger.num_accounts(), 4);
    assert!(!w.ledger.is_open(MAKER, 1));
}

#[test]
fn open_rejects_duplicate_seed() {
    let mut w = world(100, 0);
    let ctx = make_ctx(&w.ids);
    make(&mut w.ledger, &ctx, 3, 1, 40).unwrap();
    assert_eq!(make(&mut w.ledger, &ctx, 3, 1, 40), Err(EscrowError::DuplicateSeed));
    assert_eq!(w.ledger.balance(w.ids.maker_a), 60);
    assert!(make(&mut w.ledger, &ctx, 4, 1, 40).is_ok());
}

#[test]
fn open_rejects_insufficient_balance() {
    let mut w = world(100, 0);
    let ctx = make_ctx(&w.ids);
    assert_eq!(make(&mut w.ledger, &ctx, 1, 1, 101), Err(EscrowError::InsufficientBalance));
    assert_eq!(w.ledger.balance(w.ids.maker_a), 100);
    assert_eq!(make(&mut w.ledger, &ctx, 1, 1, 100).map(|_| ()), Ok(()));
    assert_eq!(w.ledger.balance(w.ids.maker_a), 0);
}

#[test]
fn open_rejects_foreign_account() {
    let mut w = world(100, 0);
    let mut ctx = make_ctx(&w.ids);
    ctx.maker_ata_a = w.ids.taker_a;
    assert_eq!(make(&mut w.ledger, &ctx, 1, 1, 1), Err(EscrowError::InvalidAccount));
    ctx.maker_ata_a = w.ids.maker_b;
    assert_eq!(make(&mut w.ledger, &ctx, 1, 1, 1), Err(EscrowError::InvalidMintA));
    ctx.maker_ata_a = 99;
    assert_eq!(make(&mut w.ledger, &ctx, 1, 1, 1), Err(EscrowError::InvalidAccount));
}

#[test]
fn settle_rejects_wrong_mints() {
    let mut w = world(100, 50);
    make(&mut w.ledger, &make_ctx(&w.ids), 1, 50, 100).unwrap();
    let mut tk = take_ctx(&w.ids, 1);
    tk.mint_a = 11;
    assert_eq!(take(&mut w.ledger, &tk), Err(EscrowError::InvalidMintA));
    let mut tk = take_ctx(&w.ids, 1);
    tk.mint_b = 21;
    assert_eq!(take(&mut w.ledger, &tk), Err(EscrowError::InvalidMintB));
    assert!(w.ledger.is_open(MAKER, 1));
    assert_eq!(w.ledger.balance(w.ids.taker_b), 50);
}

#[test]
fn settle_rejects_insufficient_payment() {
    let mut w = world(100, 49);
    let vault = make(&mut w.ledger, &make_ctx(&w.ids), 1, 50, 100).unwrap();
    assert_eq!(take(&mut w.ledger, &take_ctx(&w.ids, 1)), Err(EscrowError::InsufficientBalance));
    assert_eq!(w.ledger.balance(vault), 100);
    assert_eq!(w.ledger.balance(w.ids.taker_b), 49);
    assert!(w.ledger.is_open(MAKER, 1));
}

#[test]
fn settle_rejects_wrong_accounts() {
    let mut w = world(100, 50);
    make(&mut w.ledger, &make_ctx(&w.ids), 1, 50, 100).unwrap();
    let mut tk = take_ctx(&w.ids, 1);
    tk.maker_ata_b = w.ids.taker_b;
    assert_eq!(take(&mut w.ledger, &tk), Err(EscrowError::InvalidAccount));
    let mut tk = take_ctx(&w.ids, 1);
    tk.taker_ata_a = w.ids.maker_a;
    assert_eq!(take(&mut w.ledger, &tk), Err(EscrowError::InvalidAccount));
}

#[test]
fn settle_rejects_overflow() {
    let mut w = world(100, 50);
    let big = w.ledger.create_holding(MAKER, MINT_B, u64::MAX - 10);
    make(&mut w.ledger, &make_ctx(&w.ids), 1, 50, 100).unwrap();
    let mut tk = take_ctx(&w.ids, 1);
    tk.maker_ata_b = big;
    assert_eq!(take(&mut w.ledger, &tk), Err(EscrowError::Overflow));
    assert_eq!(w.ledger.balance(big), u64::MAX - 10);
}

#[test]
fn settle_pays_current_vault_balance() {
    let mut w = world(100, 50);
    let vault = make(&mut w.ledger, &make_ctx(&w.ids), 1, 50, 60).unwrap();
    assert_eq!(w.ledger.balance(vault), 60);
    assert_eq!(take(&mut w.ledger, &take_ctx(&w.ids, 1)), Ok(60));
    assert_eq!(w.ledger.balance(w.ids.taker_a), 60);
    assert_eq!(w.ledger.balance(w.ids.maker_a), 40);
}

#[test]
fn cancel_rejects_wrong_mint_and_account() {
    let mut w = world(100, 0);
    make(&mut w.ledger, &make_ctx(&w.ids), 1, 50, 100).unwrap();
    let mut rf = refund_ctx(&w.ids, MAKER, 1);
    rf.mint_a = MINT_B;
    assert_eq!(refund(&mut w.ledger, &rf), Err(EscrowError::InvalidMintA));
    let mut rf = refund_ctx(&w.ids, MAKER, 1);
    rf.maker_ata_a = w.ids.taker_a;
    assert_eq!(refund(&mut w.ledger, &rf), Err(EscrowError::InvalidAccount));
    assert!(w.ledger.is_open(MAKER, 1));
}

#[test]
fn cancel_rejects_overflow() {
    let mut w = world(100, 0);
    make(&mut w.ledger, &make_ctx(&w.ids), 1, 50, 100).unwrap();
    let full = w.ledger.create_holding(MAKER, MINT_A, u64::MAX);
    let mut rf = refund_ctx(&w.ids, MAKER, 1);
    rf.maker_ata_a = full;
    assert_eq!(refund(&mut w.ledger, &rf), Err(EscrowError::Overflow));
    assert!(w.ledger.is_open(MAKER, 1));
}

#[test]
fn cancel_into_provisioned_account() {
    let mut w = world(100, 0);
    make(&mut w.ledger, &make_ctx(&w.ids), 1, 50, 100).unwrap();
    let fresh_mint_holder = w.ledger.ensure_holding(MAKER, MINT_A);
    assert_eq!(fresh_mint_holder, w.ids.maker_a);
    let n = w.ledger.num_accounts();
    let other = w.ledger.ensure_holding(3, MINT_A);
    assert_eq!(other, n);
    assert_eq!(w.ledger.balance(other), 0);
    assert_eq!(w.ledger.ensure_holding(3, MINT_A), other);
    assert_eq!(w.ledger.num_accounts(), n + 1);
}

#[test]
fn escrows_are_independent() {
    let mut w = world(100, 50);
    let v1 = make(&mut w.ledger, &make_ctx(&w.ids), 1, 50, 30).unwrap();
    let v2 = make(&mut w.ledger, &make_ctx(&w.ids), 2, 50, 70).unwrap();
    assert_eq!(refund(&mut w.ledger, &refund_ctx(&w.ids, MAKER, 1)), Ok(30));
    assert!(w.ledger.is_open(MAKER, 2));
    assert_eq!(w.ledger.balance(v2), 70);
    assert!(!w.ledger.is_live(v1));
    assert_eq!(take(&mut w.ledger, &take_ctx(&w.ids, 2)), Ok(70));
    assert_eq!(w.ledger.balance(w.ids.maker_a), 30);
    assert_eq!(w.ledger.balance(w.ids.taker_a), 70);
}

#[test]
fn reopen_after_close() {
    let mut w = world(100, 0);
    let first = make(&mut w.ledger, &make_ctx(&w.ids), 5, 1, 100).unwrap();
    refund(&mut w.ledger, &refund_ctx(&w.ids, MAKER, 5)).unwrap();
    let second = make(&mut w.ledger, &make_ctx(&w.ids), 5, 1, 100).unwrap();
    assert_ne!(first, second);
    assert!(w.ledger.is_open(MAKER, 5));
    assert_eq!(w.ledger.balance(second), 100);
}

#[test]
fn authority_is_derived_from_maker_and_seed() {
    assert_eq!(derive_authority(4, 9), (Authority::Program { maker: 4, seed: 9 }, 255));
    assert_ne!(derive_authority(4, 9).0, derive_authority(4, 8).0);
    assert_ne!(derive_authority(4, 9).0, Authority::User(4));
    let e = Escrow { seed: 9, maker: 4, mint_a: 1, mint_b: 2, receive: 3, bump: 255 };
    let s = e.signer_seeds();
    assert_eq!((s.maker, s.seed, s.bump), (4, 9, 255));
    assert!(s.signs_for(derive_authority(4, 9).0));
    assert!(!s.signs_for(derive_authority(5, 9).0));
    assert!(!s.signs_for(Authority::User(4)));
    let wrong_bump = Escrow { bump: 254, ..e }.signer_seeds();
    assert!(!wrong_bump.signs_for(derive_authority(4, 9).0));
}

#[test]
fn open_reports_duplicate_before_amounts() {
    let mut w = world(100, 0);
    let ctx = make_ctx(&w.ids);
    make(&mut w.ledger, &ctx, 3, 1, 40).unwrap();
    assert_eq!(make(&mut w.ledger, &ctx, 3, 0, 40), Err(EscrowError::DuplicateSeed));
    assert_eq!(make(&mut w.ledger, &ctx, 3, 1, 0), Err(EscrowError::DuplicateSeed));
    assert_eq!(w.ledger.balance(w.ids.maker_a), 60);
}

#[test]
fn wrong_asset_accounts_give_mint_errors() {
    let mut w = world(100, 50);
    let mut ctx = make_ctx(&w.ids);
    ctx.maker_ata_a = w.ids.maker_b;
    assert_eq!(make(&mut w.ledger, &ctx, 1, 50, 100), Err(EscrowError::InvalidMintA));
    make(&mut w.ledger, &make_ctx(&w.ids), 1, 50, 100).unwrap();
    let mut tk = take_ctx(&w.ids, 1);
    tk.taker_ata_a = w.ids.taker_b;
    assert_eq!(take(&mut w.ledger, &tk), Err(EscrowError::InvalidMintA));
    let mut tk = take_ctx(&w.ids, 1);
    tk.taker_ata_b = w.ids.taker_a;
    assert_eq!(take(&mut w.ledger, &tk), Err(EscrowError::InvalidMintB));
    let mut tk = take_ctx(&w.ids, 1);
    tk.maker_ata_b = w.ids.maker_a;
    assert_eq!(take(&mut w.ledger, &tk), Err(EscrowError::InvalidMintB));
    let mut rf = refund_ctx(&w.ids, MAKER, 1);
    rf.maker_ata_a = w.ids.maker_b;
    assert_eq!(refund(&mut w.ledger, &rf), Err(EscrowError::InvalidMintA));
    assert!(w.ledger.is_open(MAKER, 1));
    assert_eq!(w.ledger.balance(w.ids.taker_b), 50);
}

#[test]
fn refund_step_closes_vault_but_keeps_record() {
    let mut w = world(100, 0);
    let vault = make(&mut w.ledger, &make_ctx(&w.ids), 1, 50, 100).unwrap();
    let x = w.ledger.find_offer(MAKER, 1).unwrap();
    let rf = refund_ctx(&w.ids, MAKER, 1);
    assert_eq!(rf.refund_and_close_vault(&mut w.ledger, x), Ok(100));
    assert_eq!(w.ledger.balance(w.ids.maker_a), 100);
    assert!(!w.ledger.is_live(vault));
    assert!(w.ledger.is_open(MAKER, 1));
    assert_eq!(w.ledger.offers[x].vault, vault);
}
