use anchor_lang::solana_program::pubkey::Pubkey;
use escrow::address::{derive_escrow_address, key_eq, seed_le_bytes, Key};
use escrow::ledger::Ledger;
use escrow::model::{Cancel, EscrowError, Exchange, Initialize, TransferChecked};
use std::str::FromStr;

const ALICE: Key = [1u8; 32];
const BOB: Key = [2u8; 32];
const MALLORY: Key = [3u8; 32];
const MINT_A: Key = [10u8; 32];
const MINT_B: Key = [11u8; 32];

fn program_id() -> Key {
    Pubkey::from_str("8d4qfn4fqq9EdVTNVWoD27sQPHqHhvmqvAHUm9Z4tbtw").unwrap().to_bytes()
}

struct Setup {
    ledger: Ledger,
    alice_a: usize,
    alice_b: usize,
    bob_a: usize,
    bob_b: usize,
}

fn setup(alice_a: u64, bob_b: u64) -> Setup {
    let mut ledger = Ledger::new(program_id());
    let alice_a_ix = ledger.open_account(ALICE, MINT_A, alice_a);
    let alice_b_ix = ledger.open_account(ALICE, MINT_B, 0);
    let bob_a_ix = ledger.open_account(BOB, MINT_A, 0);
    let bob_b_ix = ledger.open_account(BOB, MINT_B, bob_b);
    Setup { ledger, alice_a: alice_a_ix, alice_b: alice_b_ix, bob_a: bob_a_ix, bob_b: bob_b_ix }
}

fn init_ctx(s: &Setup) -> Initialize {
    Initialize { initializer: ALICE, mint_a: MINT_A, mint_b: MINT_B, initializer_ata_a: s.alice_a }
}

fn exchange_ctx(s: &Setup, escrow: usize) -> Exchange {
    let vault = s.ledger.slot(escrow).unwrap().vault;
    Exchange {
        taker: BOB,
        taker_ata_a: s.bob_a,
        taker_ata_b: s.bob_b,
        initializer_ata_b: s.alice_b,
        escrow,
        vault,
    }
}

#[test]
fn open_funds_vault_and_records_terms() {
    let mut s = setup(5000, 0);
    let ctx = init_ctx(&s);
    let k = s.ledger.initialize(&ctx, 7, 1000, 500).unwrap();
    let slot = s.ledger.slot(k).unwrap();
    assert_eq!(s.ledger.balance(slot.vault), Some(1000));
    assert_eq!(s.ledger.balance(s.alice_a), Some(4000));
    let rec = s.ledger.escrow(k).unwrap();
    assert_eq!(rec.seed, 7);
    assert_eq!(rec.initializer, ALICE);
    assert_eq!(rec.mint_a, MINT_A);
    assert_eq!(rec.mint_b, MINT_B);
    assert_eq!(rec.initializer_amount, 1000);
    assert_eq!(rec.taker_amount, 500);
    let (address, bump) = derive_escrow_address(&program_id(), &ALICE, 7).unwrap();
    assert_eq!(slot.address, address);
    assert_eq!(rec.bump, bump);
    let vault = s.ledger.account(slot.vault).unwrap();
    assert_eq!(vault.owner, address);
    assert_eq!(vault.mint, MINT_A);
}

#[test]
fn open_then_cancel_restores_balances() {
    let mut s = setup(1000, 700);
    let ctx = init_ctx(&s);
    let k = s.ledger.initialize(&ctx, 3, 1000, 500).unwrap();
    assert_eq!(s.ledger.balance(s.alice_a), Some(0));
    let vault = s.ledger.slot(k).unwrap().vault;
    let c = Cancel { initializer: ALICE, initializer_ata_a: s.alice_a, escrow: k, vault };
    assert_eq!(s.ledger.cancel(&c), Ok(()));
    assert_eq!(s.ledger.balance(s.alice_a), Some(1000));
    assert_eq!(s.ledger.balance(s.alice_b), Some(0));
    assert_eq!(s.ledger.balance(s.bob_b), Some(700));
    assert_eq!(s.ledger.balance(vault), None);
    assert!(s.ledger.escrow(k).is_none());
    assert_eq!(s.ledger.cancel(&c), Err(EscrowError::NotFound));
}

#[test]
fn exchange_swaps_both_legs() {
    let mut s = setup(1000, 500);
    let ctx = init_ctx(&s);
    let k = s.ledger.initialize(&ctx, 7, 1000, 500).unwrap();
    let e = exchange_ctx(&s, k);
    assert_eq!(s.ledger.exchange(&e), Ok(()));
    assert_eq!(s.ledger.balance(s.alice_b), Some(500));
    assert_eq!(s.ledger.balance(s.bob_a), Some(1000));
    assert_eq!(s.ledger.balance(s.bob_b), Some(0));
    assert_eq!(s.ledger.balance(s.alice_a), Some(0));
    assert_eq!(s.ledger.balance(e.vault), None);
    assert!(s.ledger.slot(k).is_none());
    assert_eq!(s.ledger.exchange(&e), Err(EscrowError::NotFound));
}

#[test]
fn exchange_short_of_asset_b_changes_nothing() {
    let mut s = setup(1000, 400);
    let ctx = init_ctx(&s);
    let k = s.ledger.initialize(&ctx, 7, 1000, 500).unwrap();
    let e = exchange_ctx(&s, k);
    assert_eq!(s.ledger.exchange(&e), Err(EscrowError::InsufficientFunds));
    assert!(s.ledger.escrow(k).is_some());
    assert_eq!(s.ledger.balance(e.vault), Some(1000));
    assert_eq!(s.ledger.balance(s.bob_b), Some(400));
    assert_eq!(s.ledger.balance(s.alice_b), Some(0));
    assert_eq!(s.ledger.balance(s.bob_a), Some(0));
}

#[test]
fn open_short_of_asset_a_leaves_no_escrow() {
    let mut s = setup(999, 0);
    let ctx = init_ctx(&s);
    assert_eq!(s.ledger.initialize(&ctx, 7, 1000, 500), Err(EscrowError::InsufficientFunds));
    assert_eq!(s.ledger.balance(s.alice_a), Some(999));
    assert!(s.ledger.slot(0).is_none());
    assert_eq!(s.ledger.balance(4), None);
    assert!(!s.ledger.find_live(&ALICE, 7));
}

#[test]
fn open_twice_with_same_seed_is_refused() {
    let mut s = setup(3000, 0);
    let ctx = init_ctx(&s);
    let k = s.ledger.initialize(&ctx, 7, 1000, 500).unwrap();
    assert_eq!(s.ledger.initialize(&ctx, 7, 1000, 500), Err(EscrowError::AlreadyExists));
    assert_eq!(s.ledger.balance(s.alice_a), Some(2000));
    assert!(s.ledger.find_live(&ALICE, 7));
    let other = s.ledger.initialize(&ctx, 8, 1000, 500).unwrap();
    assert_ne!(other, k);
}

#[test]
fn seed_is_free_again_after_cancel() {
    let mut s = setup(2000, 0);
    let ctx = init_ctx(&s);
    let k = s.ledger.initialize(&ctx, 7, 1000, 500).unwrap();
    let vault = s.ledger.slot(k).unwrap().vault;
    let c = Cancel { initializer: ALICE, initializer_ata_a: s.alice_a, escrow: k, vault };
    assert_eq!(s.ledger.cancel(&c), Ok(()));
    let k2 = s.ledger.initialize(&ctx, 7, 1500, 100).unwrap();
    assert_ne!(k2, k);
    assert_eq!(s.ledger.balance(s.alice_a), Some(500));
}

#[test]
fn cancel_by_stranger_is_unauthorized() {
    let mut s = setup(1000, 0);
    let ctx = init_ctx(&s);
    let k = s.ledger.initialize(&ctx, 7, 1000, 500).unwrap();
    let vault = s.ledger.slot(k).unwrap().vault;
    let c = Cancel { initializer: MALLORY, initializer_ata_a: s.alice_a, escrow: k, vault };
    assert_eq!(s.ledger.cancel(&c), Err(EscrowError::Unauthorized));
    assert_eq!(s.ledger.balance(vault), Some(1000));
    assert_eq!(s.ledger.balance(s.alice_a), Some(0));
    assert!(s.ledger.escrow(k).is_some());
}

#[test]
fn exchange_after_cancel_is_not_found() {
    let mut s = setup(1000, 500);
    let ctx = init_ctx(&s);
    let k = s.ledger.initialize(&ctx, 7, 1000, 500).unwrap();
    let e = exchange_ctx(&s, k);
    let c = Cancel { initializer: ALICE, initializer_ata_a: s.alice_a, escrow: k, vault: e.vault };
    assert_eq!(s.ledger.cancel(&c), Ok(()));
    assert_eq!(s.ledger.exchange(&e), Err(EscrowError::NotFound));
    assert_eq!(s.ledger.balance(s.bob_b), Some(500));
}

#[test]
fn wrong_accounts_are_asset_mismatch() {
    let mut s = setup(1000, 500);
    let bad = Initialize { initializer: ALICE, mint_a: MINT_B, mint_b: MINT_A, initializer_ata_a: s.alice_a };
    assert_eq!(s.ledger.initialize(&bad, 7, 10, 5), Err(EscrowError::AssetMismatch));
    let ctx = init_ctx(&s);
    let k = s.ledger.initialize(&ctx, 7, 1000, 500).unwrap();
    let mut e = exchange_ctx(&s, k);
    e.vault = s.alice_a;
    assert_eq!(s.ledger.exchange(&e), Err(EscrowError::AssetMismatch));
    let mut e2 = exchange_ctx(&s, k);
    e2.taker_ata_b = s.alice_b;
    assert_eq!(s.ledger.exchange(&e2), Err(EscrowError::Unauthorized));
    let c = Cancel { initializer: ALICE, initializer_ata_a: s.bob_a, escrow: k, vault: e2.vault };
    assert_eq!(s.ledger.cancel(&c), Err(EscrowError::AssetMismatch));
    assert_eq!(s.ledger.balance(e2.vault), Some(1000));
}

#[test]
fn missing_accounts_are_not_found() {
    let mut s = setup(1000, 500);
    let ctx = Initialize { initializer: ALICE, mint_a: MINT_A, mint_b: MINT_B, initializer_ata_a: 99 };
    assert_eq!(s.ledger.initialize(&ctx, 7, 10, 5), Err(EscrowError::NotFound));
    let c = Cancel { initializer: ALICE, initializer_ata_a: s.alice_a, escrow: 0, vault: 4 };
    assert_eq!(s.ledger.cancel(&c), Err(EscrowError::NotFound));
}

#[test]
fn transfer_overflow_is_refused() {
    let mut ledger = Ledger::new(program_id());
    let from = ledger.open_account(ALICE, MINT_A, 10);
    let to = ledger.open_account(BOB, MINT_A, u64::MAX - 5);
    let t = TransferChecked { from, mint: MINT_A, to, authority: ALICE };
    assert_eq!(ledger.transfer_checked(&t, 10), Err(EscrowError::Overflow));
    assert_eq!(ledger.balance(from), Some(10));
    assert_eq!(ledger.transfer_checked(&t, 5), Ok(()));
    assert_eq!(ledger.balance(to), Some(u64::MAX));
    assert_eq!(ledger.balance(from), Some(5));
}

#[test]
fn transfer_to_itself_keeps_balance() {
    let mut ledger = Ledger::new(program_id());
    let a = ledger.open_account(ALICE, MINT_A, 10);
    let t = TransferChecked { from: a, mint: MINT_A, to: a, authority: ALICE };
    assert_eq!(ledger.transfer_checked(&t, 7), Ok(()));
    assert_eq!(ledger.balance(a), Some(10));
}

#[test]
fn derived_address_matches_find_program_address() {
    let pid = program_id();
    let (address, bump) = derive_escrow_address(&pid, &ALICE, 7).unwrap();
    let seed = 7u64.to_le_bytes();
    let (expected, expected_bump) = Pubkey::find_program_address(
        &[b"state".as_ref(), ALICE.as_ref(), seed.as_ref()],
        &Pubkey::new_from_array(pid),
    );
    assert_eq!(address, expected.to_bytes());
    assert_eq!(bump, expected_bump);
    assert_ne!(address, pid);
    let (other, _) = derive_escrow_address(&pid, &ALICE, 8).unwrap();
    assert_ne!(address, other);
    let (other_owner, _) = derive_escrow_address(&pid, &BOB, 7).unwrap();
    assert_ne!(address, other_owner);
}

#[test]
fn seed_bytes_are_little_endian() {
    assert_eq!(seed_le_bytes(0x0102030405060708), vec![8, 7, 6, 5, 4, 3, 2, 1]);
    assert_eq!(seed_le_bytes(7), 7u64.to_le_bytes().to_vec());
    assert_eq!(seed_le_bytes(u64::MAX), vec![255u8; 8]);
}

#[test]
fn keys_compare_bytewise() {
    assert!(key_eq(&ALICE, &[1u8; 32]));
    let mut k = ALICE;
    k[31] = 2;
    assert!(!key_eq(&ALICE, &k));
}

#[test]
fn deposit_context_names_initializer_accounts() {
    let s = setup(10, 0);
    let ctx = init_ctx(&s);
    let t = ctx.into_deposit_contenxt(9);
    assert_eq!(t, TransferChecked { from: s.alice_a, mint: MINT_A, to: 9, authority: ALICE });
    let rec = ctx.initalize_escrow(7, 254, 1000, 500);
    assert_eq!(rec.bump, 254);
    assert_eq!(rec.initializer_amount, 1000);
}
