use anchor_lang::idl::{IdlInstruction, IDL_IX_TAG, IDL_IX_TAG_LE};
use anchor_lang::prelude::Pubkey;
use anchor_lang::AnchorSerialize;
use memo::address::{derive_address, metadata_address};
use memo::codec::{decode, encode, MetaInstruction};
use memo::engine::{Instruction, Ledger, Transaction, TxError};
use memo::instructions::{
    close_metadata_account, create_metadata_account, memo_instruction, resize_metadata_account, set_authority,
};
use memo::lifecycle::{reserve_for, Rent};
use memo::store::AccountStore;
use memo::{memo, Address, ErrorKind, Memo};
use std::str::FromStr;

const PROGRAM: &str = "ETV8B7LGMaZYMRwWYimjKpwcoE1AQHNfFwMDynstK4wR";
const RENT: Rent = Rent { per_byte: 6960, overhead: 128 };
const TOKEN: u64 = 77;

fn program() -> Address {
    Address::from_bytes(Pubkey::from_str(PROGRAM).unwrap().to_bytes())
}

fn memo_program() -> Address {
    Address::from_bytes([7u8; 32])
}

fn key(b: u8) -> Address {
    Address::from_bytes([b; 32])
}

fn ledger(hardened: bool, max_instructions: u64, max_growth: u64) -> Ledger {
    Ledger::new(program(), memo_program(), RENT, max_instructions, max_growth, hardened, TOKEN).unwrap()
}

fn base() -> Address {
    let p = Pubkey::from_str(PROGRAM).unwrap();
    Address::from_bytes(Pubkey::find_program_address(&[], &p).0.to_bytes())
}

fn tx(instructions: Vec<Instruction>, payer: Address, signers: Vec<Address>) -> Transaction {
    Transaction { instructions, fee_payer: payer, signers, freshness: TOKEN }
}

fn same(a: &Address, b: &Address) -> bool {
    a.bytes == b.bytes
}

fn reserve(len: u64) -> u64 {
    (len + 128) * 6960
}

#[test]
fn test_unexpected_drain() {
    let mut l = ledger(false, 64, u64::MAX);
    let payer = key(1);
    l.deposit(&payer, 1_000_000_000_000).unwrap();

    let note = b"Hello, Solana!".to_vec();
    let memo_ix = memo_instruction(memo_program(), &note);
    l.apply(&tx(vec![memo_ix], payer, vec![payer])).unwrap();
    println!("Memo transaction processed successfully");

    let attacker = key(9);
    let initial_attacker_balance = 0;
    let meta = l.metadata();
    let mut ixs = Vec::new();
    ixs.push(create_metadata_account(program(), meta, base(), payer, 10_000));
    let mut data_len = 10_000;
    for _ in 0..30 {
        data_len += 10_000;
        ixs.push(resize_metadata_account(program(), meta, payer, data_len));
    }
    ixs.push(close_metadata_account(program(), meta, payer, attacker));
    l.apply(&tx(ixs, payer, vec![payer])).unwrap();
    println!("IDL account created successfully and closed");

    let final_attacker_balance = l.get_balance(&attacker);
    assert!(
        final_attacker_balance > initial_attacker_balance,
        "Attacker should have received funds from closing the account"
    );
    assert_eq!(final_attacker_balance, reserve(310_000));
    println!("Attack successful: Attacker drained {} lamports", final_attacker_balance - initial_attacker_balance);
}

#[test]
fn hardened_scenario_pays_no_third_party() {
    let mut l = ledger(true, 64, 100_000);
    let payer = key(1);
    l.deposit(&payer, 1_000_000_000_000).unwrap();
    let attacker = key(9);
    let meta = l.metadata();
    let mut ixs = vec![create_metadata_account(program(), meta, base(), payer, 10_000)];
    let mut data_len = 10_000;
    for _ in 0..30 {
        data_len += 10_000;
        ixs.push(resize_metadata_account(program(), meta, payer, data_len));
    }
    ixs.push(close_metadata_account(program(), meta, payer, attacker));
    let r = l.apply(&tx(ixs, payer, vec![payer]));
    assert_eq!(r, Err(TxError { kind: ErrorKind::TraceLimitExceeded, instruction: Some(11) }));
    assert_eq!(l.get_balance(&attacker), 0);
    assert_eq!(l.get_balance(&payer), 1_000_000_000_000);
}

#[test]
fn hardened_close_to_third_party_is_refused() {
    let mut l = ledger(true, 64, u64::MAX);
    let payer = key(1);
    l.deposit(&payer, 1_000_000_000_000).unwrap();
    let meta = l.metadata();
    let ixs = vec![
        create_metadata_account(program(), meta, base(), payer, 10_000),
        close_metadata_account(program(), meta, payer, key(9)),
    ];
    let r = l.apply(&tx(ixs, payer, vec![payer]));
    assert_eq!(r, Err(TxError { kind: ErrorKind::PrivilegeViolation, instruction: Some(1) }));
    assert_eq!(l.get_balance(&key(9)), 0);
}

#[test]
fn hardened_shrink_refunds_authority() {
    let mut l = ledger(true, 64, u64::MAX);
    let payer = key(1);
    l.deposit(&payer, 1_000_000_000_000).unwrap();
    let meta = l.metadata();
    let ixs = vec![
        create_metadata_account(program(), meta, base(), payer, 10_000),
        resize_metadata_account(program(), meta, payer, 50_000),
        resize_metadata_account(program(), meta, payer, 20_000),
    ];
    l.apply(&tx(ixs, payer, vec![payer])).unwrap();
    assert_eq!(l.get_balance(&meta), reserve(20_000));
    assert_eq!(l.get_balance(&payer), 1_000_000_000_000 - reserve(20_000));
    let acct = l.get_account(&meta).unwrap();
    assert_eq!(acct.data_len, 20_000);
}

#[test]
fn vulnerable_shrink_keeps_balance() {
    let mut l = ledger(false, 64, u64::MAX);
    let payer = key(1);
    l.deposit(&payer, 1_000_000_000_000).unwrap();
    let meta = l.metadata();
    let ixs = vec![
        create_metadata_account(program(), meta, base(), payer, 10_000),
        resize_metadata_account(program(), meta, payer, 50_000),
        resize_metadata_account(program(), meta, payer, 20_000),
    ];
    l.apply(&tx(ixs, payer, vec![payer])).unwrap();
    assert_eq!(l.get_balance(&meta), reserve(50_000));
}

#[test]
fn close_pays_recipient_the_whole_balance() {
    let mut l = ledger(false, 64, u64::MAX);
    let payer = key(1);
    let recipient = key(5);
    l.deposit(&payer, 1_000_000_000_000).unwrap();
    l.deposit(&recipient, 1_000).unwrap();
    let meta = l.metadata();
    let ixs = vec![create_metadata_account(program(), meta, base(), payer, 1_000)];
    l.apply(&tx(ixs, payer, vec![payer])).unwrap();
    let held = l.get_balance(&meta);
    assert_eq!(held, reserve(1_000));
    let ixs = vec![close_metadata_account(program(), meta, payer, recipient)];
    l.apply(&tx(ixs, payer, vec![payer])).unwrap();
    assert_eq!(l.get_balance(&recipient), 1_000 + held);
    assert_eq!(l.get_balance(&meta), 0);
    let acct = l.get_account(&meta).unwrap();
    assert_eq!(acct.data_len, 0);
    assert!(same(&acct.owner, &Address::system()));
}

#[test]
fn closed_account_can_be_created_again() {
    let mut l = ledger(false, 64, u64::MAX);
    let payer = key(1);
    l.deposit(&payer, 1_000_000_000_000).unwrap();
    let meta = l.metadata();
    let ixs = vec![
        create_metadata_account(program(), meta, base(), payer, 100),
        close_metadata_account(program(), meta, payer, payer),
        create_metadata_account(program(), meta, base(), payer, 200),
    ];
    l.apply(&tx(ixs, payer, vec![payer])).unwrap();
    assert_eq!(l.get_balance(&meta), reserve(200));
    assert_eq!(l.get_account(&meta).unwrap().data_len, 200);
}

#[test]
fn create_twice_already_exists() {
    let mut l = ledger(false, 64, u64::MAX);
    let payer = key(1);
    l.deposit(&payer, 1_000_000_000_000).unwrap();
    let meta = l.metadata();
    let ixs = vec![
        create_metadata_account(program(), meta, base(), payer, 100),
        create_metadata_account(program(), meta, base(), payer, 100),
    ];
    let r = l.apply(&tx(ixs, payer, vec![payer]));
    assert_eq!(r, Err(TxError { kind: ErrorKind::AlreadyExists, instruction: Some(1) }));
}

#[test]
fn create_without_funds_fails() {
    let mut l = ledger(false, 64, u64::MAX);
    let payer = key(1);
    l.deposit(&payer, 10).unwrap();
    let meta = l.metadata();
    let ixs = vec![create_metadata_account(program(), meta, base(), payer, 100)];
    let r = l.apply(&tx(ixs, payer, vec![payer]));
    assert_eq!(r, Err(TxError { kind: ErrorKind::InsufficientFunds, instruction: Some(0) }));
    assert_eq!(l.get_balance(&payer), 10);
}

#[test]
fn failed_transaction_changes_nothing() {
    let mut l = ledger(false, 64, u64::MAX);
    let payer = key(1);
    let stranger = key(2);
    l.deposit(&payer, 1_000_000_000_000).unwrap();
    let meta = l.metadata();
    let ixs = vec![
        create_metadata_account(program(), meta, base(), payer, 100),
        resize_metadata_account(program(), meta, payer, 5_000),
        resize_metadata_account(program(), meta, stranger, 9_000),
    ];
    let r = l.apply(&tx(ixs, payer, vec![payer, stranger]));
    assert_eq!(r, Err(TxError { kind: ErrorKind::PrivilegeViolation, instruction: Some(2) }));
    assert_eq!(l.get_balance(&payer), 1_000_000_000_000);
    assert_eq!(l.get_balance(&meta), 0);
    assert!(l.get_account(&meta).is_none());
}

#[test]
fn set_authority_moves_control() {
    let mut l = ledger(false, 64, u64::MAX);
    let payer = key(1);
    let other = key(3);
    l.deposit(&payer, 1_000_000_000_000).unwrap();
    l.deposit(&other, 1_000_000_000_000).unwrap();
    let meta = l.metadata();
    let ixs = vec![
        create_metadata_account(program(), meta, base(), payer, 100),
        set_authority(program(), meta, payer, other),
    ];
    l.apply(&tx(ixs, payer, vec![payer])).unwrap();
    assert!(same(&l.get_account(&meta).unwrap().authority, &other));
    let r = l.apply(&tx(vec![resize_metadata_account(program(), meta, payer, 500)], payer, vec![payer]));
    assert_eq!(r, Err(TxError { kind: ErrorKind::PrivilegeViolation, instruction: Some(0) }));
    l.apply(&tx(vec![resize_metadata_account(program(), meta, other, 500)], payer, vec![payer, other])).unwrap();
    assert_eq!(l.get_balance(&meta), reserve(500));
    assert_eq!(l.get_balance(&other), 1_000_000_000_000 - (reserve(500) - reserve(100)));
}

#[test]
fn too_many_instructions_trace_limit() {
    let mut l = ledger(false, 2, u64::MAX);
    let payer = key(1);
    l.deposit(&payer, 1_000_000_000_000).unwrap();
    let note = b"x".to_vec();
    let ixs = vec![
        memo_instruction(memo_program(), &note),
        memo_instruction(memo_program(), &note),
        memo_instruction(memo_program(), &note),
    ];
    let r = l.apply(&Transaction { instructions: ixs, fee_payer: payer, signers: vec![], freshness: 0 });
    assert_eq!(r, Err(TxError { kind: ErrorKind::TraceLimitExceeded, instruction: None }));
    assert_eq!(l.log().len(), 0);
}

#[test]
fn growth_over_ceiling_trace_limit() {
    let mut l = ledger(false, 64, 25_000);
    let payer = key(1);
    l.deposit(&payer, 1_000_000_000_000).unwrap();
    let meta = l.metadata();
    let ixs = vec![
        create_metadata_account(program(), meta, base(), payer, 10_000),
        resize_metadata_account(program(), meta, payer, 20_000),
        resize_metadata_account(program(), meta, payer, 30_000),
        resize_metadata_account(program(), meta, payer, 40_000),
    ];
    let r = l.apply(&tx(ixs, payer, vec![payer]));
    assert_eq!(r, Err(TxError { kind: ErrorKind::TraceLimitExceeded, instruction: Some(3) }));
    assert_eq!(l.get_balance(&payer), 1_000_000_000_000);
}

#[test]
fn stale_token_is_invalid() {
    let mut l = ledger(false, 64, u64::MAX);
    let payer = key(1);
    let note = b"x".to_vec();
    let t = Transaction {
        instructions: vec![memo_instruction(memo_program(), &note)],
        fee_payer: payer,
        signers: vec![payer],
        freshness: TOKEN + 1,
    };
    assert_eq!(l.apply(&t), Err(TxError { kind: ErrorKind::InvalidTransaction, instruction: None }));
}

#[test]
fn missing_signer_is_invalid() {
    let mut l = ledger(false, 64, u64::MAX);
    let payer = key(1);
    l.deposit(&payer, 1_000_000_000_000).unwrap();
    let meta = l.metadata();
    let ixs = vec![create_metadata_account(program(), meta, base(), payer, 100)];
    let r = l.apply(&tx(ixs, payer, vec![key(2)]));
    assert_eq!(r, Err(TxError { kind: ErrorKind::InvalidTransaction, instruction: None }));
}

#[test]
fn unknown_program_is_invalid() {
    let mut l = ledger(false, 64, u64::MAX);
    let payer = key(1);
    let ix = Instruction { program: key(42), accounts: vec![], data: vec![] };
    let r = l.apply(&tx(vec![ix], payer, vec![payer]));
    assert_eq!(r, Err(TxError { kind: ErrorKind::InvalidTransaction, instruction: Some(0) }));
}

#[test]
fn malformed_payload_is_rejected() {
    let mut l = ledger(false, 64, u64::MAX);
    let payer = key(1);
    let meta = l.metadata();
    let mut ix = resize_metadata_account(program(), meta, payer, 100);
    ix.data.pop();
    let r = l.apply(&tx(vec![ix], payer, vec![payer]));
    assert_eq!(r, Err(TxError { kind: ErrorKind::MalformedInstruction, instruction: Some(0) }));
}

#[test]
fn memo_note_is_logged() {
    let mut l = ledger(false, 64, u64::MAX);
    let payer = key(1);
    let note = b"Hello, Solana!".to_vec();
    l.apply(&tx(vec![memo_instruction(memo_program(), &note)], payer, vec![payer])).unwrap();
    assert_eq!(l.log().len(), 1);
    assert_eq!(l.log()[0], b"You: Hello, Solana!".to_vec());
}

#[test]
fn memo_appends_text() {
    let mut log: Vec<Vec<u8>> = vec![b"a".to_vec()];
    assert!(memo(&Memo {}, &mut log, b"Hello, Solana!".to_vec()).is_ok());
    assert_eq!(log, vec![b"a".to_vec(), b"You: Hello, Solana!".to_vec()]);
}

#[test]
fn derivation_matches_pubkey_and_is_deterministic() {
    let b = key(3);
    let o = key(4);
    let first = derive_address(&b, "seed", &o).unwrap();
    let second = derive_address(&b, "seed", &o).unwrap();
    assert!(same(&first, &second));
    let expected = Pubkey::create_with_seed(&Pubkey::new_from_array(b.bytes), "seed", &Pubkey::new_from_array(o.bytes)).unwrap();
    assert_eq!(first.bytes, expected.to_bytes());
    assert!(!same(&first, &b));
}

#[test]
fn derivation_refuses_long_seed() {
    let long = "abcdefghijklmnopqrstuvwxyz0123456789";
    assert!(derive_address(&key(3), long, &key(4)).is_none());
}

#[test]
fn metadata_address_matches_anchor() {
    let p = Pubkey::from_str(PROGRAM).unwrap();
    let b = Pubkey::find_program_address(&[], &p).0;
    let expected = Pubkey::create_with_seed(&b, "anchor:idl", &p).unwrap();
    let got = metadata_address(&program()).unwrap();
    assert_eq!(got.bytes, expected.to_bytes());
    assert!(same(&ledger(false, 1, 1).metadata(), &got));
}

#[test]
fn system_program_cannot_own_metadata() {
    assert!(Ledger::new(Address::system(), memo_program(), RENT, 1, 1, false, 0).is_none());
}

#[test]
fn encoding_matches_anchor() {
    let mut tag = IDL_IX_TAG_LE.to_vec();
    assert_eq!(tag, IDL_IX_TAG.to_le_bytes().to_vec());
    let mut create = tag.clone();
    create.extend(IdlInstruction::Create { data_len: 10_000 }.try_to_vec().unwrap());
    assert_eq!(encode(&MetaInstruction::Create { length: 10_000 }), create);
    let mut resize = tag.clone();
    resize.extend(IdlInstruction::Resize { data_len: 20_000 }.try_to_vec().unwrap());
    assert_eq!(encode(&MetaInstruction::Resize { length: 20_000 }), resize);
    let who = key(8);
    let mut auth = tag.clone();
    auth.extend(IdlInstruction::SetAuthority { new_authority: Pubkey::new_from_array(who.bytes) }.try_to_vec().unwrap());
    assert_eq!(encode(&MetaInstruction::SetAuthority { new_authority: who }), auth);
    tag.extend(IdlInstruction::Close.try_to_vec().unwrap());
    assert_eq!(encode(&MetaInstruction::Close), tag);
}

#[test]
fn decode_round_trips() {
    let bytes = encode(&MetaInstruction::Resize { length: 123_456 });
    match decode(&bytes) {
        Ok(MetaInstruction::Resize { length }) => assert_eq!(length, 123_456),
        _ => panic!("resize did not decode"),
    }
    let bytes = encode(&MetaInstruction::SetAuthority { new_authority: key(6) });
    match decode(&bytes) {
        Ok(MetaInstruction::SetAuthority { new_authority }) => assert_eq!(new_authority.bytes, [6u8; 32]),
        _ => panic!("set authority did not decode"),
    }
    assert!(matches!(decode(&encode(&MetaInstruction::Close)), Ok(MetaInstruction::Close)));
}

#[test]
fn decode_rejects_bad_input() {
    let mut bytes = encode(&MetaInstruction::Create { length: 5 });
    bytes[0] ^= 1;
    assert_eq!(decode(&bytes).err(), Some(ErrorKind::MalformedInstruction));
    let mut bytes = encode(&MetaInstruction::Close);
    bytes.push(0);
    assert_eq!(decode(&bytes).err(), Some(ErrorKind::MalformedInstruction));
    let mut bytes = encode(&MetaInstruction::Close);
    bytes[8] = 1;
    assert_eq!(decode(&bytes).err(), Some(ErrorKind::MalformedInstruction));
    assert_eq!(decode(&[]).err(), Some(ErrorKind::MalformedInstruction));
}

#[test]
fn reserve_is_length_plus_overhead_times_rate() {
    assert_eq!(reserve_for(RENT, 10_000), Some(70_490_880));
    assert_eq!(reserve_for(RENT, 0), Some(890_880));
    assert_eq!(reserve_for(RENT, u64::MAX), None);
    assert_eq!(reserve_for(Rent { per_byte: u64::MAX, overhead: 0 }, 2), None);
}

#[test]
fn store_credit_and_debit() {
    let mut s = AccountStore::new();
    let a = key(1);
    assert!(s.get(&a).is_none());
    assert_eq!(s.get_balance(&a), 0);
    assert_eq!(s.debit(&a, 1), Err(ErrorKind::InsufficientFunds));
    s.credit(&a, 50).unwrap();
    s.debit(&a, 20).unwrap();
    assert_eq!(s.get_balance(&a), 30);
    assert_eq!(s.debit(&a, 31), Err(ErrorKind::InsufficientFunds));
    assert_eq!(s.credit(&a, u64::MAX), Err(ErrorKind::InvalidTransaction));
    assert_eq!(s.get_balance(&a), 30);
    let copy = s.duplicate();
    assert_eq!(copy.get_balance(&a), 30);
}

#[test]
fn resubmit_with_fresh_token() {
    let mut l = ledger(false, 64, u64::MAX);
    let payer = key(1);
    let note = b"again".to_vec();
    let mut t = tx(vec![memo_instruction(memo_program(), &note)], payer, vec![payer]);
    l.advance(TOKEN + 1);
    assert_eq!(l.recent_token(), TOKEN + 1);
    assert_eq!(l.apply(&t), Err(TxError { kind: ErrorKind::InvalidTransaction, instruction: None }));
    t.freshness = TOKEN + 1;
    l.apply(&t).unwrap();
    assert_eq!(l.log().len(), 1);
}

#[test]
fn create_over_funded_address_is_refused() {
    let mut l = ledger(false, 64, u64::MAX);
    let payer = key(1);
    l.deposit(&payer, 1_000_000_000_000).unwrap();
    let meta = l.metadata();
    l.deposit(&meta, 5).unwrap();
    let ixs = vec![create_metadata_account(program(), meta, base(), payer, 100)];
    let r = l.apply(&tx(ixs, payer, vec![payer]));
    assert_eq!(r, Err(TxError { kind: ErrorKind::AlreadyExists, instruction: Some(0) }));
    assert_eq!(l.get_balance(&meta), 5);
    assert_eq!(l.get_balance(&payer), 1_000_000_000_000);
}
