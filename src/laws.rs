//! Properties of the ledger that hold across transactions.
use crate::address::system_address;
use crate::engine::{apply_spec, run, step, decoded, Instruction, Staged, TxError};
use crate::error::ErrorKind;
use crate::lifecycle::{
    close_spec, create_spec, credit_spec, is_active, reserve, resize_funding, resize_spec, set_authority_spec, AccountRef,
    Config,
};
use crate::codec::{decodable, MetaInstruction};
use crate::store::{account_at, empty_account, with_balance, zero_address, Account};
use vstd::prelude::*;

verus! {

/// Only the metadata account is active, and while it is, its balance covers
/// the reserve for its length.
pub open spec fn reserves_held(cfg: Config, accounts: Map<Seq<u8>, Account>) -> bool {
    forall|k: Seq<u8>|
        is_active(cfg, #[trigger] account_at(accounts, k)) ==> k == cfg.metadata@
            && account_at(accounts, k).balance >= reserve(cfg.rent, account_at(accounts, k).data_len)
}

pub(crate) proof fn lemma_empty_inactive(cfg: Config)
    requires
        cfg.program@ != system_address(),
    ensures
        !is_active(cfg, empty_account()),
{
    vstd::array::axiom_spec_array_fill_for_copy_type::<u8, 32>(0u8);
    assert(zero_address()@ =~= system_address());
}

proof fn lemma_balance_elsewhere(cfg: Config, accounts: Map<Seq<u8>, Account>, k: Seq<u8>, b: u64)
    requires
        cfg.program@ != system_address(),
        reserves_held(cfg, accounts),
        k != cfg.metadata@,
    ensures
        reserves_held(cfg, with_balance(accounts, k, b)),
        account_at(with_balance(accounts, k, b), cfg.metadata@) == account_at(accounts, cfg.metadata@),
{
    lemma_empty_inactive(cfg);
    let after = with_balance(accounts, k, b);
    assert forall|j: Seq<u8>| is_active(cfg, #[trigger] account_at(after, j)) implies j == cfg.metadata@
        && account_at(after, j).balance >= reserve(cfg.rent, account_at(after, j).data_len) by {
        if j == k {
            assert(account_at(after, j).owner == account_at(accounts, k).owner);
            assert(is_active(cfg, account_at(accounts, k)));
        } else {
            assert(account_at(after, j) == account_at(accounts, j));
        }
    }
}

proof fn lemma_meta_balance(cfg: Config, accounts: Map<Seq<u8>, Account>, b: u64, j: Seq<u8>)
    ensures
        j != cfg.metadata@ ==> account_at(with_balance(accounts, cfg.metadata@, b), j) == account_at(accounts, j),
        account_at(with_balance(accounts, cfg.metadata@, b), cfg.metadata@) == (Account { balance: b, ..account_at(accounts, cfg.metadata@) }),
{
}

proof fn lemma_create(cfg: Config, accounts: Map<Seq<u8>, Account>, refs: Seq<AccountRef>, length: u64)
    requires
        cfg.program@ != system_address(),
        reserves_held(cfg, accounts),
    ensures
        create_spec(cfg, accounts, refs, length) is Ok ==> reserves_held(cfg, create_spec(cfg, accounts, refs, length)->Ok_0),
{
    if create_spec(cfg, accounts, refs, length) is Ok {
        let payer = refs[0].address@;
        let need = reserve(cfg.rent, length) as u64;
        let meta0 = account_at(accounts, cfg.metadata@);
        let a1 = with_balance(accounts, payer, (account_at(accounts, payer).balance - need) as u64);
        lemma_balance_elsewhere(cfg, accounts, payer, (account_at(accounts, payer).balance - need) as u64);
        let a2 = with_balance(a1, cfg.metadata@, (account_at(a1, cfg.metadata@).balance + need) as u64);
        let a3 = create_spec(cfg, accounts, refs, length)->Ok_0;
        assert forall|j: Seq<u8>| is_active(cfg, #[trigger] account_at(a3, j)) implies j == cfg.metadata@
            && account_at(a3, j).balance >= reserve(cfg.rent, account_at(a3, j).data_len) by {
            lemma_meta_balance(cfg, a1, (account_at(a1, cfg.metadata@).balance + need) as u64, j);
            if j != cfg.metadata@ {
                assert(account_at(a3, j) == account_at(a1, j));
            }
        }
    }
}

proof fn lemma_resize(cfg: Config, accounts: Map<Seq<u8>, Account>, growth: nat, refs: Seq<AccountRef>, length: u64)
    requires
        cfg.program@ != system_address(),
        reserves_held(cfg, accounts),
    ensures
        resize_spec(cfg, accounts, growth, refs, length) is Ok ==> reserves_held(cfg, resize_spec(cfg, accounts, growth, refs, length)->Ok_0.0),
{
    if resize_spec(cfg, accounts, growth, refs, length) is Ok {
        let authority = refs[1].address@;
        let need = reserve(cfg.rent, length) as u64;
        let balance = account_at(accounts, cfg.metadata@).balance;
        let funded = resize_funding(cfg, accounts, authority, need)->Ok_0;
        if need > balance {
            let d = (need - balance) as u64;
            let a1 = with_balance(accounts, authority, (account_at(accounts, authority).balance - d) as u64);
            lemma_balance_elsewhere(cfg, accounts, authority, (account_at(accounts, authority).balance - d) as u64);
            lemma_meta_balance(cfg, a1, (account_at(a1, cfg.metadata@).balance + d) as u64, cfg.metadata@);
            assert(account_at(funded, cfg.metadata@).balance == need);
            assert forall|j: Seq<u8>| j != cfg.metadata@ implies #[trigger] account_at(funded, j) == account_at(a1, j) by {
                lemma_meta_balance(cfg, a1, (account_at(a1, cfg.metadata@).balance + d) as u64, j);
            }
        } else if cfg.hardened && need < balance {
            let a1 = with_balance(accounts, cfg.metadata@, need);
            assert forall|j: Seq<u8>| j != cfg.metadata@ implies #[trigger] account_at(a1, j) == account_at(accounts, j) by {
                lemma_meta_balance(cfg, accounts, need, j);
            }
            lemma_meta_balance(cfg, accounts, need, cfg.metadata@);
            lemma_empty_inactive(cfg);
            assert(!is_active(cfg, account_at(a1, authority)));
            assert(account_at(funded, cfg.metadata@).balance == need);
            assert(forall|j: Seq<u8>| j != cfg.metadata@ && j != authority ==> #[trigger] account_at(funded, j) == account_at(accounts, j));
            assert(account_at(funded, authority).owner == account_at(accounts, authority).owner);
        }
        let after = resize_spec(cfg, accounts, growth, refs, length)->Ok_0.0;
        lemma_empty_inactive(cfg);
        assert forall|j: Seq<u8>| is_active(cfg, #[trigger] account_at(after, j)) implies j == cfg.metadata@
            && account_at(after, j).balance >= reserve(cfg.rent, account_at(after, j).data_len) by {
            if j != cfg.metadata@ {
                assert(account_at(after, j) == account_at(funded, j));
                assert(account_at(funded, j).owner == account_at(accounts, j).owner);
            }
        }
    }
}

proof fn lemma_set_authority(cfg: Config, accounts: Map<Seq<u8>, Account>, refs: Seq<AccountRef>, new_authority: crate::address::Address)
    requires
        reserves_held(cfg, accounts),
    ensures
        set_authority_spec(cfg, accounts, refs, new_authority) is Ok ==> reserves_held(cfg, set_authority_spec(cfg, accounts, refs, new_authority)->Ok_0),
{
    if set_authority_spec(cfg, accounts, refs, new_authority) is Ok {
        let after = set_authority_spec(cfg, accounts, refs, new_authority)->Ok_0;
        assert forall|j: Seq<u8>| is_active(cfg, #[trigger] account_at(after, j)) implies j == cfg.metadata@
            && account_at(after, j).balance >= reserve(cfg.rent, account_at(after, j).data_len) by {
            if j != cfg.metadata@ {
                assert(account_at(after, j) == account_at(accounts, j));
            }
        }
    }
}

proof fn lemma_close(cfg: Config, accounts: Map<Seq<u8>, Account>, refs: Seq<AccountRef>)
    requires
        cfg.program@ != system_address(),
        reserves_held(cfg, accounts),
    ensures
        close_spec(cfg, accounts, refs) is Ok ==> reserves_held(cfg, close_spec(cfg, accounts, refs)->Ok_0),
{
    if close_spec(cfg, accounts, refs) is Ok {
        lemma_empty_inactive(cfg);
        let a1 = accounts.insert(cfg.metadata@, empty_account());
        assert forall|j: Seq<u8>| is_active(cfg, #[trigger] account_at(a1, j)) implies j == cfg.metadata@
            && account_at(a1, j).balance >= reserve(cfg.rent, account_at(a1, j).data_len) by {
            if j != cfg.metadata@ {
                assert(account_at(a1, j) == account_at(accounts, j));
            }
        }
        let recipient = refs[2].address@;
        lemma_balance_elsewhere(cfg, a1, recipient, (account_at(a1, recipient).balance + account_at(accounts, cfg.metadata@).balance) as u64);
    }
}

proof fn lemma_step(cfg: Config, staged: Staged, ins: Instruction)
    requires
        cfg.program@ != system_address(),
        reserves_held(cfg, staged.0),
    ensures
        step(cfg, staged, ins) is Ok ==> reserves_held(cfg, step(cfg, staged, ins)->Ok_0.0),
{
    if ins.program@ == cfg.program@ && decodable(ins.data@) {
        let (accounts, growth, notes) = staged;
        match decoded(ins.data@) {
            MetaInstruction::Create { length } => lemma_create(cfg, accounts, ins.accounts@, length),
            MetaInstruction::Resize { length } => lemma_resize(cfg, accounts, growth, ins.accounts@, length),
            MetaInstruction::SetAuthority { new_authority } => lemma_set_authority(cfg, accounts, ins.accounts@, new_authority),
            MetaInstruction::Close => lemma_close(cfg, accounts, ins.accounts@),
        }
    }
}

proof fn lemma_run(cfg: Config, accounts: Map<Seq<u8>, Account>, instructions: Seq<Instruction>)
    requires
        cfg.program@ != system_address(),
        reserves_held(cfg, accounts),
    ensures
        run(cfg, accounts, instructions) is Ok ==> reserves_held(cfg, run(cfg, accounts, instructions)->Ok_0.0),
    decreases instructions.len(),
{
    if instructions.len() > 0 {
        lemma_run(cfg, accounts, instructions.drop_last());
        if run(cfg, accounts, instructions.drop_last()) is Ok {
            lemma_step(cfg, run(cfg, accounts, instructions.drop_last())->Ok_0, instructions.last());
        }
    }
}

/// Every committed transaction keeps the reserve invariant: only the metadata
/// account is active, and its balance covers the reserve for its length.
pub proof fn lemma_reserve_invariant(cfg: Config, recent: u64, accounts: Map<Seq<u8>, Account>, tx: crate::engine::Transaction)
    requires
        cfg.program@ != system_address(),
        reserves_held(cfg, accounts),
    ensures
        apply_spec(cfg, recent, accounts, tx) is Ok ==> reserves_held(cfg, apply_spec(cfg, recent, accounts, tx)->Ok_0.0),
{
    lemma_run(cfg, accounts, tx.instructions@);
}

/// A close pays the recipient exactly the balance the account held and leaves
/// the account empty, touching no other account; when hardened, the recipient
/// is the account's authority.
pub proof fn lemma_close_conservation(cfg: Config, accounts: Map<Seq<u8>, Account>, refs: Seq<AccountRef>)
    requires
        close_spec(cfg, accounts, refs) is Ok,
    ensures
        ({
            let after = close_spec(cfg, accounts, refs)->Ok_0;
            let recipient = refs[2].address@;
            &&& account_at(after, recipient).balance == account_at(accounts, recipient).balance
                + account_at(accounts, cfg.metadata@).balance
            &&& account_at(after, cfg.metadata@) == empty_account()
            &&& forall|k: Seq<u8>| k != recipient && k != cfg.metadata@ ==> #[trigger] account_at(after, k) == account_at(accounts, k)
            &&& cfg.hardened ==> recipient == account_at(accounts, cfg.metadata@).authority@
        }),
{
}

/// A transaction over the instruction ceiling fails with `TraceLimitExceeded`
/// and commits nothing; one that commits grew the data by no more than the
/// growth ceiling.
pub proof fn lemma_trace_limit(cfg: Config, recent: u64, accounts: Map<Seq<u8>, Account>, tx: crate::engine::Transaction)
    ensures
        tx.instructions@.len() > cfg.max_instructions ==> apply_spec(cfg, recent, accounts, tx)
            == Err::<(Map<Seq<u8>, Account>, Seq<Seq<u8>>), TxError>(TxError { kind: ErrorKind::TraceLimitExceeded, instruction: None }),
        apply_spec(cfg, recent, accounts, tx) is Ok ==> run(cfg, accounts, tx.instructions@)->Ok_0.1 <= cfg.max_growth,
{
    crate::engine::lemma_run_growth_bounded(cfg, accounts, tx.instructions@);
}

/// An authorized resize whose growth would take the transaction's cumulative
/// growth over the ceiling fails with `TraceLimitExceeded`.
pub proof fn lemma_growth_ceiling(cfg: Config, accounts: Map<Seq<u8>, Account>, growth: nat, refs: Seq<AccountRef>, length: u64)
    requires
        refs.len() >= 2,
        refs[0].address@ == cfg.metadata@ && refs[0].writable,
        refs[1].writable && refs[1].address@ != cfg.metadata@,
        crate::lifecycle::authorized(cfg, accounts, refs, 1),
        growth + crate::lifecycle::growth_of(account_at(accounts, cfg.metadata@).data_len, length) > cfg.max_growth,
    ensures
        resize_spec(cfg, accounts, growth, refs, length) == Err::<(Map<Seq<u8>, Account>, nat), ErrorKind>(ErrorKind::TraceLimitExceeded),
{
}

/// Crediting any address keeps the reserve invariant.
pub proof fn lemma_credit_keeps_reserves(cfg: Config, accounts: Map<Seq<u8>, Account>, k: Seq<u8>, amount: u64)
    requires
        cfg.program@ != system_address(),
        reserves_held(cfg, accounts),
    ensures
        credit_spec(accounts, k, amount) is Ok ==> reserves_held(cfg, credit_spec(accounts, k, amount)->Ok_0),
{
    if credit_spec(accounts, k, amount) is Ok {
        let b = (account_at(accounts, k).balance + amount) as u64;
        if k != cfg.metadata@ {
            lemma_balance_elsewhere(cfg, accounts, k, b);
        } else {
            let after = with_balance(accounts, k, b);
            assert forall|j: Seq<u8>| is_active(cfg, #[trigger] account_at(after, j)) implies j == cfg.metadata@
                && account_at(after, j).balance >= reserve(cfg.rent, account_at(after, j).data_len) by {
                lemma_meta_balance(cfg, accounts, b, j);
            }
        }
    }
}

} // verus!
