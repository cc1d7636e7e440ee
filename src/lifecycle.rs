//! The metadata account's state machine: create, resize, set authority and
//! close, as a transition over the account map and in executable form.
use crate::address::{same_address, Address};
use crate::codec::MetaInstruction;
use crate::error::ErrorKind;
use crate::store::{account_at, empty_account, with_balance, Account, AccountStore};
use vstd::prelude::*;

verus! {

/// Reserve requirement: `(length + overhead) * per_byte`.
#[derive(Clone, Copy, Debug)]
pub struct Rent {
    pub per_byte: u64,
    pub overhead: u64,
}

pub open spec fn reserve(rent: Rent, length: u64) -> int {
    (length + rent.overhead) * rent.per_byte
}

/// Whether the reserve for `length`, and the sum it is computed from, fit in a `u64`.
pub open spec fn reserve_fits(rent: Rent, length: u64) -> bool {
    length + rent.overhead <= u64::MAX && reserve(rent, length) <= u64::MAX
}

/// The reserve requirement for `length`, where it fits in a `u64`.
pub fn reserve_for(rent: Rent, length: u64) -> (r: Option<u64>)
    ensures
        r is Some <==> reserve_fits(rent, length),
        r is Some ==> r->Some_0 == reserve(rent, length),
{
    match length.checked_add(rent.overhead) {
        None => None,
        Some(n) => n.checked_mul(rent.per_byte),
    }
}

/// What the engine is configured with.
#[derive(Clone, Copy, Debug)]
pub struct Config {
    /// The metadata-account program.
    pub program: Address,
    /// The note program.
    pub memo_program: Address,
    /// The metadata account's derived address.
    pub metadata: Address,
    pub rent: Rent,
    pub max_instructions: u64,
    /// Ceiling on the data growth that the resizes of one transaction add up to.
    pub max_growth: u64,
    /// Trims the balance on shrinking resizes and pays a close to the authority only.
    pub hardened: bool,
}

/// An account that an instruction references.
#[derive(Clone, Copy, Debug)]
pub struct AccountRef {
    pub address: Address,
    pub writable: bool,
    pub signer: bool,
}

pub open spec fn is_active(cfg: Config, account: Account) -> bool {
    account.owner@ == cfg.program@
}

pub open spec fn debit_spec(accounts: Map<Seq<u8>, Account>, k: Seq<u8>, amount: u64) -> Result<Map<Seq<u8>, Account>, ErrorKind> {
    if amount <= account_at(accounts, k).balance {
        Ok(with_balance(accounts, k, (account_at(accounts, k).balance - amount) as u64))
    } else {
        Err(ErrorKind::InsufficientFunds)
    }
}

pub open spec fn credit_spec(accounts: Map<Seq<u8>, Account>, k: Seq<u8>, amount: u64) -> Result<Map<Seq<u8>, Account>, ErrorKind> {
    if account_at(accounts, k).balance + amount <= u64::MAX {
        Ok(with_balance(accounts, k, (account_at(accounts, k).balance + amount) as u64))
    } else {
        Err(ErrorKind::InvalidTransaction)
    }
}

/// `accounts` with `amount` moved from `from` to `to`.
pub open spec fn transfer_spec(accounts: Map<Seq<u8>, Account>, from: Seq<u8>, to: Seq<u8>, amount: u64) -> Result<Map<Seq<u8>, Account>, ErrorKind> {
    match debit_spec(accounts, from, amount) {
        Ok(a) => credit_spec(a, to, amount),
        Err(e) => Err(e),
    }
}

/// Growth that a resize to `length` adds to an account of `current` bytes.
pub open spec fn growth_of(current: u64, length: u64) -> nat {
    if length > current { (length - current) as nat } else { 0 }
}

/// Whether `refs[i]` exists and is the metadata account, writable.
pub open spec fn metadata_ref(cfg: Config, refs: Seq<AccountRef>, i: int) -> bool {
    refs[i].address@ == cfg.metadata@ && refs[i].writable
}

/// Whether the active metadata account's authority signs as `refs[i]`.
pub open spec fn authorized(cfg: Config, accounts: Map<Seq<u8>, Account>, refs: Seq<AccountRef>, i: int) -> bool {
    let meta = account_at(accounts, cfg.metadata@);
    refs[i].signer && is_active(cfg, meta) && meta.authority@ == refs[i].address@
}

pub open spec fn create_spec(cfg: Config, accounts: Map<Seq<u8>, Account>, refs: Seq<AccountRef>, length: u64) -> Result<Map<Seq<u8>, Account>, ErrorKind> {
    if refs.len() < 2 {
        Err(ErrorKind::MalformedInstruction)
    } else if !(refs[0].signer && refs[0].writable && metadata_ref(cfg, refs, 1))
        || refs[0].address@ == cfg.metadata@ {
        Err(ErrorKind::PrivilegeViolation)
    } else if is_active(cfg, account_at(accounts, cfg.metadata@)) || account_at(accounts, cfg.metadata@).balance != 0 {
        Err(ErrorKind::AlreadyExists)
    } else if !reserve_fits(cfg.rent, length) {
        Err(ErrorKind::InsufficientFunds)
    } else {
        match transfer_spec(accounts, refs[0].address@, cfg.metadata@, reserve(cfg.rent, length) as u64) {
            Ok(a) => Ok(a.insert(cfg.metadata@, Account {
                owner: cfg.program,
                data_len: length,
                authority: refs[0].address,
                ..account_at(a, cfg.metadata@)
            })),
            Err(e) => Err(e),
        }
    }
}

/// The resize's effect on balances: a top-up from the authority to the
/// reserve of the new length, or, when hardened, a refund of the excess.
pub open spec fn resize_funding(cfg: Config, accounts: Map<Seq<u8>, Account>, authority: Seq<u8>, need: u64) -> Result<Map<Seq<u8>, Account>, ErrorKind> {
    let balance = account_at(accounts, cfg.metadata@).balance;
    if need > balance {
        transfer_spec(accounts, authority, cfg.metadata@, (need - balance) as u64)
    } else if cfg.hardened && need < balance {
        transfer_spec(accounts, cfg.metadata@, authority, (balance - need) as u64)
    } else {
        Ok(accounts)
    }
}

pub open spec fn resize_spec(cfg: Config, accounts: Map<Seq<u8>, Account>, growth: nat, refs: Seq<AccountRef>, length: u64) -> Result<(Map<Seq<u8>, Account>, nat), ErrorKind> {
    let meta = account_at(accounts, cfg.metadata@);
    if refs.len() < 2 {
        Err(ErrorKind::MalformedInstruction)
    } else if !(metadata_ref(cfg, refs, 0) && refs[1].writable && authorized(cfg, accounts, refs, 1))
        || refs[1].address@ == cfg.metadata@ {
        Err(ErrorKind::PrivilegeViolation)
    } else if growth + growth_of(meta.data_len, length) > cfg.max_growth {
        Err(ErrorKind::TraceLimitExceeded)
    } else if !reserve_fits(cfg.rent, length) {
        Err(ErrorKind::InsufficientFunds)
    } else {
        match resize_funding(cfg, accounts, refs[1].address@, reserve(cfg.rent, length) as u64) {
            Ok(a) => Ok((
                a.insert(cfg.metadata@, Account { data_len: length, ..account_at(a, cfg.metadata@) }),
                growth + growth_of(meta.data_len, length),
            )),
            Err(e) => Err(e),
        }
    }
}

pub open spec fn set_authority_spec(cfg: Config, accounts: Map<Seq<u8>, Account>, refs: Seq<AccountRef>, new_authority: Address) -> Result<Map<Seq<u8>, Account>, ErrorKind> {
    if refs.len() < 2 {
        Err(ErrorKind::MalformedInstruction)
    } else if !(metadata_ref(cfg, refs, 0) && authorized(cfg, accounts, refs, 1)) {
        Err(ErrorKind::PrivilegeViolation)
    } else {
        Ok(accounts.insert(cfg.metadata@, Account { authority: new_authority, ..account_at(accounts, cfg.metadata@) }))
    }
}

pub open spec fn close_spec(cfg: Config, accounts: Map<Seq<u8>, Account>, refs: Seq<AccountRef>) -> Result<Map<Seq<u8>, Account>, ErrorKind> {
    let meta = account_at(accounts, cfg.metadata@);
    if refs.len() < 3 {
        Err(ErrorKind::MalformedInstruction)
    } else if !(metadata_ref(cfg, refs, 0) && authorized(cfg, accounts, refs, 1) && refs[2].writable)
        || refs[2].address@ == cfg.metadata@
        || (cfg.hardened && refs[2].address@ != meta.authority@) {
        Err(ErrorKind::PrivilegeViolation)
    } else {
        credit_spec(accounts.insert(cfg.metadata@, empty_account()), refs[2].address@, meta.balance)
    }
}

/// One metadata-account instruction applied to the staged accounts and the
/// growth so far.
pub open spec fn meta_step(cfg: Config, accounts: Map<Seq<u8>, Account>, growth: nat, refs: Seq<AccountRef>, ins: MetaInstruction) -> Result<(Map<Seq<u8>, Account>, nat), ErrorKind> {
    match ins {
        MetaInstruction::Create { length } => match create_spec(cfg, accounts, refs, length) {
            Ok(a) => Ok((a, growth)),
            Err(e) => Err(e),
        },
        MetaInstruction::Resize { length } => resize_spec(cfg, accounts, growth, refs, length),
        MetaInstruction::SetAuthority { new_authority } => match set_authority_spec(cfg, accounts, refs, new_authority) {
            Ok(a) => Ok((a, growth)),
            Err(e) => Err(e),
        },
        MetaInstruction::Close => match close_spec(cfg, accounts, refs) {
            Ok(a) => Ok((a, growth)),
            Err(e) => Err(e),
        },
    }
}

fn transfer(store: &mut AccountStore, from: &Address, to: &Address, amount: u64) -> (r: Result<(), ErrorKind>)
    ensures
        match transfer_spec(old(store)@, from@, to@, amount) {
            Ok(a) => r is Ok && final(store)@ == a,
            Err(e) => r == Err::<(), ErrorKind>(e),
        },
{
    store.debit(from, amount)?;
    store.credit(to, amount)
}

fn is_authorized(cfg: &Config, store: &AccountStore, r: &AccountRef) -> (b: bool)
    ensures
        b == (r.signer && is_active(*cfg, account_at(store@, cfg.metadata@)) && account_at(store@, cfg.metadata@).authority@ == r.address@),
{
    let meta = store.account(&cfg.metadata);
    r.signer && same_address(&meta.owner, &cfg.program) && same_address(&meta.authority, &r.address)
}

fn is_metadata_ref(cfg: &Config, r: &AccountRef) -> (b: bool)
    ensures
        b == (r.address@ == cfg.metadata@ && r.writable),
{
    same_address(&r.address, &cfg.metadata) && r.writable
}

/// Applies a create to the staged store.
pub fn create(cfg: &Config, store: &mut AccountStore, refs: &Vec<AccountRef>, length: u64) -> (r: Result<(), ErrorKind>)
    ensures
        match create_spec(*cfg, old(store)@, refs@, length) {
            Ok(a) => r is Ok && final(store)@ == a,
            Err(e) => r == Err::<(), ErrorKind>(e),
        },
{
    if refs.len() < 2 {
        return Err(ErrorKind::MalformedInstruction);
    }
    if !(refs[0].signer && refs[0].writable && is_metadata_ref(cfg, &refs[1]))
        || same_address(&refs[0].address, &cfg.metadata) {
        return Err(ErrorKind::PrivilegeViolation);
    }
    let meta = store.account(&cfg.metadata);
    if same_address(&meta.owner, &cfg.program) || meta.balance != 0 {
        return Err(ErrorKind::AlreadyExists);
    }
    let need = match reserve_for(cfg.rent, length) {
        Some(n) => n,
        None => { return Err(ErrorKind::InsufficientFunds); },
    };
    transfer(store, &refs[0].address, &cfg.metadata, need)?;
    let funded = store.account(&cfg.metadata);
    store.put(&cfg.metadata, Account { owner: cfg.program, data_len: length, authority: refs[0].address, ..funded });
    Ok(())
}

/// Applies a resize to the staged store, adding its growth to `growth`.
pub fn resize(cfg: &Config, store: &mut AccountStore, growth: &mut u64, refs: &Vec<AccountRef>, length: u64) -> (r: Result<(), ErrorKind>)
    requires
        *old(growth) <= cfg.max_growth,
    ensures
        match resize_spec(*cfg, old(store)@, *old(growth) as nat, refs@, length) {
            Ok((a, g)) => r is Ok && final(store)@ == a && *final(growth) == g,
            Err(e) => r == Err::<(), ErrorKind>(e),
        },
{
    if refs.len() < 2 {
        return Err(ErrorKind::MalformedInstruction);
    }
    if !(is_metadata_ref(cfg, &refs[0]) && refs[1].writable && is_authorized(cfg, store, &refs[1]))
        || same_address(&refs[1].address, &cfg.metadata) {
        return Err(ErrorKind::PrivilegeViolation);
    }
    let meta = store.account(&cfg.metadata);
    let added: u64 = if length > meta.data_len { length - meta.data_len } else { 0 };
    if added > cfg.max_growth - *growth {
        return Err(ErrorKind::TraceLimitExceeded);
    }
    let need = match reserve_for(cfg.rent, length) {
        Some(n) => n,
        None => { return Err(ErrorKind::InsufficientFunds); },
    };
    let authority = refs[1].address;
    if need > meta.balance {
        transfer(store, &authority, &cfg.metadata, need - meta.balance)?;
    } else if cfg.hardened && need < meta.balance {
        transfer(store, &cfg.metadata, &authority, meta.balance - need)?;
    }
    let funded = store.account(&cfg.metadata);
    store.put(&cfg.metadata, Account { data_len: length, ..funded });
    *growth = *growth + added;
    Ok(())
}

/// Applies a change of authority to the staged store.
pub fn set_authority(cfg: &Config, store: &mut AccountStore, refs: &Vec<AccountRef>, new_authority: Address) -> (r: Result<(), ErrorKind>)
    ensures
        match set_authority_spec(*cfg, old(store)@, refs@, new_authority) {
            Ok(a) => r is Ok && final(store)@ == a,
            Err(e) => r == Err::<(), ErrorKind>(e),
        },
{
    if refs.len() < 2 {
        return Err(ErrorKind::MalformedInstruction);
    }
    if !(is_metadata_ref(cfg, &refs[0]) && is_authorized(cfg, store, &refs[1])) {
        return Err(ErrorKind::PrivilegeViolation);
    }
    let meta = store.account(&cfg.metadata);
    store.put(&cfg.metadata, Account { authority: new_authority, ..meta });
    Ok(())
}

/// Applies a close to the staged store: the whole balance goes to the recipient.
pub fn close(cfg: &Config, store: &mut AccountStore, refs: &Vec<AccountRef>) -> (r: Result<(), ErrorKind>)
    ensures
        match close_spec(*cfg, old(store)@, refs@) {
            Ok(a) => r is Ok && final(store)@ == a,
            Err(e) => r == Err::<(), ErrorKind>(e),
        },
{
    if refs.len() < 3 {
        return Err(ErrorKind::MalformedInstruction);
    }
    let meta = store.account(&cfg.metadata);
    let recipient = refs[2].address;
    if !(is_metadata_ref(cfg, &refs[0]) && is_authorized(cfg, store, &refs[1]) && refs[2].writable)
        || same_address(&recipient, &cfg.metadata)
        || (cfg.hardened && !same_address(&recipient, &meta.authority)) {
        return Err(ErrorKind::PrivilegeViolation);
    }
    store.put(&cfg.metadata, Account::empty());
    store.credit(&recipient, meta.balance)
}

/// Applies one decoded metadata-account instruction to the staged store.
pub fn execute_meta(cfg: &Config, store: &mut AccountStore, growth: &mut u64, refs: &Vec<AccountRef>, ins: MetaInstruction) -> (r: Result<(), ErrorKind>)
    requires
        *old(growth) <= cfg.max_growth,
    ensures
        match meta_step(*cfg, old(store)@, *old(growth) as nat, refs@, ins) {
            Ok((a, g)) => r is Ok && final(store)@ == a && *final(growth) == g,
            Err(e) => r == Err::<(), ErrorKind>(e),
        },
{
    match ins {
        MetaInstruction::Create { length } => create(cfg, store, refs, length),
        MetaInstruction::Resize { length } => resize(cfg, store, growth, refs, length),
        MetaInstruction::SetAuthority { new_authority } => set_authority(cfg, store, refs, new_authority),
        MetaInstruction::Close => close(cfg, store, refs),
    }
}

} // verus!
