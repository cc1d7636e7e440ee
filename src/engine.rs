//! The transaction engine: validates a transaction, runs its instructions in
//! order against a staged copy of the accounts, and commits all of it or
//! nothing.
use crate::address::{metadata_address, same_address, system_address, Address};
use crate::codec::{decodable, decode, encoding, lemma_encoding_injective, MetaInstruction};
use crate::error::ErrorKind;
use crate::lifecycle::{execute_meta, meta_step, AccountRef, Config, Rent};
use crate::memo_program::{decode_memo, logged_note, memo, memo_note, notes_of, Memo};
use crate::store::{account_at, Account, AccountStore};
use crate::laws::{lemma_credit_keeps_reserves, lemma_empty_inactive, lemma_reserve_invariant, reserves_held};
use vstd::prelude::*;

verus! {

/// One operation: the program it targets, the accounts it references and its payload.
pub struct Instruction {
    pub program: Address,
    pub accounts: Vec<AccountRef>,
    pub data: Vec<u8>,
}

/// Instructions applied together, with the fee payer, the signers and the
/// freshness token.
pub struct Transaction {
    pub instructions: Vec<Instruction>,
    pub fee_payer: Address,
    pub signers: Vec<Address>,
    pub freshness: u64,
}

/// Why a transaction failed, and at which instruction where one is to blame.
#[derive(Clone, Copy, Debug, PartialEq, Eq)]
pub struct TxError {
    pub kind: ErrorKind,
    pub instruction: Option<usize>,
}

/// The instruction that `bytes` encode.
pub open spec fn decoded(bytes: Seq<u8>) -> MetaInstruction {
    choose|ins: MetaInstruction| encoding(ins) == bytes
}

/// The staged accounts, the growth so far and the notes written so far.
pub type Staged = (Map<Seq<u8>, Account>, nat, Seq<Seq<u8>>);

/// One instruction applied to the staged state.
pub open spec fn step(cfg: Config, staged: Staged, ins: Instruction) -> Result<Staged, ErrorKind> {
    let (accounts, growth, notes) = staged;
    if ins.program@ == cfg.program@ {
        if decodable(ins.data@) {
            match meta_step(cfg, accounts, growth, ins.accounts@, decoded(ins.data@)) {
                Ok((a, g)) => Ok((a, g, notes)),
                Err(e) => Err(e),
            }
        } else {
            Err(ErrorKind::MalformedInstruction)
        }
    } else if ins.program@ == cfg.memo_program@ {
        match memo_note(ins.data@) {
            Some(n) => Ok((accounts, growth, notes.push(logged_note(n)))),
            None => Err(ErrorKind::MalformedInstruction),
        }
    } else {
        Err(ErrorKind::InvalidTransaction)
    }
}

/// The instructions run in order from `accounts`; the first failure ends the run.
pub open spec fn run(cfg: Config, accounts: Map<Seq<u8>, Account>, instructions: Seq<Instruction>) -> Result<Staged, TxError>
    decreases instructions.len(),
{
    if instructions.len() == 0 {
        Ok((accounts, 0nat, Seq::empty()))
    } else {
        match run(cfg, accounts, instructions.drop_last()) {
            Ok(staged) => match step(cfg, staged, instructions.last()) {
                Ok(next) => Ok(next),
                Err(e) => Err(TxError { kind: e, instruction: Some((instructions.len() - 1) as usize) }),
            },
            Err(e) => Err(e),
        }
    }
}

pub open spec fn signed(signers: Seq<Address>, address: Seq<u8>) -> bool {
    exists|k: int| 0 <= k < signers.len() && signers[k]@ == address
}

/// The fee payer signs, and so does every account that an instruction marks as signer.
pub open spec fn signatures_present(tx: Transaction) -> bool {
    &&& signed(tx.signers@, tx.fee_payer@)
    &&& forall|i: int, j: int|
        0 <= i < tx.instructions@.len() && 0 <= j < tx.instructions@[i].accounts@.len()
            && (#[trigger] tx.instructions@[i].accounts@[j]).signer
            ==> signed(tx.signers@, tx.instructions@[i].accounts@[j].address@)
}

/// The outcome of a transaction: the accounts and notes it commits, or its error.
pub open spec fn apply_spec(cfg: Config, recent: u64, accounts: Map<Seq<u8>, Account>, tx: Transaction) -> Result<(Map<Seq<u8>, Account>, Seq<Seq<u8>>), TxError> {
    if tx.instructions@.len() > cfg.max_instructions {
        Err(TxError { kind: ErrorKind::TraceLimitExceeded, instruction: None })
    } else if tx.freshness != recent || !signatures_present(tx) {
        Err(TxError { kind: ErrorKind::InvalidTransaction, instruction: None })
    } else {
        match run(cfg, accounts, tx.instructions@) {
            Ok((a, g, n)) => Ok((a, n)),
            Err(e) => Err(e),
        }
    }
}


/// A run that succeeds stays within the growth ceiling.
pub proof fn lemma_run_growth_bounded(cfg: Config, accounts: Map<Seq<u8>, Account>, instructions: Seq<Instruction>)
    ensures
        run(cfg, accounts, instructions) is Ok ==> run(cfg, accounts, instructions)->Ok_0.1 <= cfg.max_growth,
    decreases instructions.len(),
{
    if instructions.len() > 0 {
        lemma_run_growth_bounded(cfg, accounts, instructions.drop_last());
    }
}

proof fn lemma_run_failure_persists(cfg: Config, accounts: Map<Seq<u8>, Account>, instructions: Seq<Instruction>, k: int)
    requires
        0 <= k <= instructions.len(),
        run(cfg, accounts, instructions.take(k)) is Err,
    ensures
        run(cfg, accounts, instructions) == run(cfg, accounts, instructions.take(k)),
    decreases instructions.len() - k,
{
    if k < instructions.len() {
        assert(instructions.take(k + 1).drop_last() =~= instructions.take(k));
        lemma_run_failure_persists(cfg, accounts, instructions, k + 1);
    } else {
        assert(instructions.take(k) =~= instructions);
    }
}

fn is_signed(signers: &Vec<Address>, address: &Address) -> (r: bool)
    ensures
        r == signed(signers@, address@),
{
    let mut k: usize = 0;
    while k < signers.len()
        invariant
            0 <= k <= signers@.len(),
            forall|m: int| 0 <= m < k ==> signers@[m]@ != address@,
        decreases signers@.len() - k,
    {
        if same_address(&signers[k], address) {
            return true;
        }
        k = k + 1;
    }
    false
}

fn check_signatures(tx: &Transaction) -> (r: bool)
    ensures
        r == signatures_present(*tx),
{
    if !is_signed(&tx.signers, &tx.fee_payer) {
        return false;
    }
    let mut i: usize = 0;
    while i < tx.instructions.len()
        invariant
            0 <= i <= tx.instructions@.len(),
            forall|a: int, b: int|
                0 <= a < i && 0 <= b < tx.instructions@[a].accounts@.len()
                    && (#[trigger] tx.instructions@[a].accounts@[b]).signer
                    ==> signed(tx.signers@, tx.instructions@[a].accounts@[b].address@),
        decreases tx.instructions@.len() - i,
    {
        let refs = &tx.instructions[i].accounts;
        let mut j: usize = 0;
        while j < refs.len()
            invariant
                0 <= i < tx.instructions@.len(),
                *refs == tx.instructions@[i as int].accounts,
                0 <= j <= refs@.len(),
                forall|a: int, b: int|
                    0 <= a < i && 0 <= b < tx.instructions@[a].accounts@.len()
                        && (#[trigger] tx.instructions@[a].accounts@[b]).signer
                        ==> signed(tx.signers@, tx.instructions@[a].accounts@[b].address@),
                forall|b: int| 0 <= b < j && (#[trigger] refs@[b]).signer ==> signed(tx.signers@, refs@[b].address@),
            decreases refs@.len() - j,
        {
            if refs[j].signer && !is_signed(&tx.signers, &refs[j].address) {
                return false;
            }
            j = j + 1;
        }
        i = i + 1;
    }
    true
}

/// Runs one instruction against the staged store, growth and notes.
fn execute(cfg: &Config, store: &mut AccountStore, growth: &mut u64, notes: &mut Vec<Vec<u8>>, ins: &Instruction) -> (r: Result<(), ErrorKind>)
    requires
        *old(growth) <= cfg.max_growth,
    ensures
        match step(*cfg, (old(store)@, *old(growth) as nat, notes_of(old(notes)@)), *ins) {
            Ok((a, g, n)) => r is Ok && final(store)@ == a && *final(growth) == g && notes_of(final(notes)@) == n,
            Err(e) => r == Err::<(), ErrorKind>(e),
        },
{
    if same_address(&ins.program, &cfg.program) {
        let decoded_ins = decode(ins.data.as_slice())?;
        proof {
            lemma_encoding_injective(decoded_ins, decoded(ins.data@));
        }
        execute_meta(cfg, store, growth, &ins.accounts, decoded_ins)
    } else if same_address(&ins.program, &cfg.memo_program) {
        let note = decode_memo(ins.data.as_slice())?;
        memo(&Memo {}, notes, note)
    } else {
        Err(ErrorKind::InvalidTransaction)
    }
}

/// The account store with the engine that applies transactions to it.
pub struct Ledger {
    config: Config,
    store: AccountStore,
    recent: u64,
    log: Vec<Vec<u8>>,
}

impl Ledger {
    /// The program is not the system address, and the reserve invariant holds.
    pub closed spec fn wf(&self) -> bool {
        &&& self.config.program@ != system_address()
        &&& reserves_held(self.config, self.store@)
    }

    pub closed spec fn config(&self) -> Config {
        self.config
    }

    pub closed spec fn accounts(&self) -> Map<Seq<u8>, Account> {
        self.store@
    }

    pub closed spec fn recent(&self) -> u64 {
        self.recent
    }

    /// The notes that committed transactions wrote, oldest first.
    pub closed spec fn notes(&self) -> Seq<Seq<u8>> {
        notes_of(self.log@)
    }

    /// An empty ledger for `program`, whose metadata account is derived from
    /// it; `None` where that derivation fails or `program` is the system address.
    pub fn new(
        program: Address,
        memo_program: Address,
        rent: Rent,
        max_instructions: u64,
        max_growth: u64,
        hardened: bool,
        recent: u64,
    ) -> (r: Option<Ledger>)
        ensures
            r is Some <==> (program@ != system_address() && crate::address::program_base_found(program@)
                && !crate::address::ends_with_marker(program@)),
            r is Some ==> {
                let l = r->Some_0;
                &&& l.config().program == program
                &&& l.config().memo_program == memo_program
                &&& l.config().rent == rent
                &&& l.config().max_instructions == max_instructions
                &&& l.config().max_growth == max_growth
                &&& l.config().hardened == hardened
                &&& l.config().metadata@ == crate::address::seeded_address_of(
                    crate::address::program_base_of(program@),
                    crate::address::metadata_seed(),
                    program@,
                )
                &&& l.config().program@ != system_address()
                &&& l.accounts() == Map::<Seq<u8>, Account>::empty()
                &&& l.recent() == recent
                &&& l.notes() == Seq::<Seq<u8>>::empty()
                &&& l.wf()
            },
    {
        if same_address(&program, &Address::system()) {
            return None;
        }
        let metadata = match metadata_address(&program) {
            Some(m) => m,
            None => { return None; },
        };
        let config = Config { program, memo_program, metadata, rent, max_instructions, max_growth, hardened };
        let ledger = Ledger { config, store: AccountStore::new(), recent, log: Vec::new() };
        assert(ledger.notes() =~= Seq::<Seq<u8>>::empty());
        proof {
            lemma_empty_inactive(config);
        }
        Some(ledger)
    }

    pub fn metadata(&self) -> (r: Address)
        ensures
            r == self.config().metadata,
    {
        self.config.metadata
    }

    /// The notes that committed transactions wrote, oldest first.
    pub fn log(&self) -> (r: &Vec<Vec<u8>>)
        ensures
            notes_of(r@) == self.notes(),
    {
        &self.log
    }

    pub fn recent_token(&self) -> (r: u64)
        ensures
            r == self.recent(),
    {
        self.recent
    }

    /// Replaces the freshness token that transactions must carry.
    pub fn advance(&mut self, token: u64)
        requires
            old(self).wf(),
        ensures
            final(self).wf(),
            final(self).recent() == token,
            final(self).config() == old(self).config(),
            final(self).accounts() == old(self).accounts(),
            final(self).notes() == old(self).notes(),
    {
        self.recent = token;
    }

    /// The query interface: the balance at `address`, zero where absent.
    pub fn get_balance(&self, address: &Address) -> (r: u64)
        ensures
            r == account_at(self.accounts(), address@).balance,
    {
        self.store.get_balance(address)
    }

    pub fn get_account(&self, address: &Address) -> (r: Option<Account>)
        ensures
            r == (if self.accounts().contains_key(address@) { Some(self.accounts()[address@]) } else { None::<Account> }),
    {
        self.store.get(address)
    }

    /// Mints `amount` into `address`, outside any transaction.
    pub fn deposit(&mut self, address: &Address, amount: u64) -> (r: Result<(), ErrorKind>)
        requires
            old(self).wf(),
        ensures
            final(self).wf(),
            final(self).config() == old(self).config(),
            final(self).recent() == old(self).recent(),
            final(self).notes() == old(self).notes(),
            match crate::lifecycle::credit_spec(old(self).accounts(), address@, amount) {
                Ok(a) => r is Ok && final(self).accounts() == a,
                Err(e) => r == Err::<(), ErrorKind>(e) && final(self).accounts() == old(self).accounts(),
            },
    {
        proof {
            lemma_credit_keeps_reserves(self.config, self.store@, address@, amount);
        }
        self.store.credit(address, amount)
    }

    /// Applies `tx` atomically: every instruction's effect is committed, or,
    /// on the first error, none.
    pub fn apply(&mut self, tx: &Transaction) -> (r: Result<(), TxError>)
        requires
            old(self).wf(),
        ensures
            final(self).wf(),
            final(self).config() == old(self).config(),
            final(self).recent() == old(self).recent(),
            match apply_spec(old(self).config(), old(self).recent(), old(self).accounts(), *tx) {
                Ok((a, n)) => r is Ok && final(self).accounts() == a && final(self).notes() == old(self).notes() + n,
                Err(e) => r == Err::<(), TxError>(e) && final(self).accounts() == old(self).accounts()
                    && final(self).notes() == old(self).notes(),
            },
    {
        if tx.instructions.len() as u128 > self.config.max_instructions as u128 {
            return Err(TxError { kind: ErrorKind::TraceLimitExceeded, instruction: None });
        }
        if tx.freshness != self.recent || !check_signatures(tx) {
            return Err(TxError { kind: ErrorKind::InvalidTransaction, instruction: None });
        }
        let mut staged = self.store.duplicate();
        let mut growth: u64 = 0;
        let mut notes: Vec<Vec<u8>> = Vec::new();
        let mut i: usize = 0;
        proof {
            assert(tx.instructions@.take(0) =~= Seq::<Instruction>::empty());
            assert(notes_of(notes@) =~= Seq::<Seq<u8>>::empty());
        }
        while i < tx.instructions.len()
            invariant
                0 <= i <= tx.instructions@.len(),
                growth <= self.config.max_growth,
                tx.instructions@.len() <= self.config.max_instructions,
                tx.freshness == self.recent,
                signatures_present(*tx),
                self.wf(),
                run(self.config, self.store@, tx.instructions@.take(i as int)) == Ok::<Staged, TxError>((staged@, growth as nat, notes_of(notes@))),
            decreases tx.instructions@.len() - i,
        {
            let ghost prefix = tx.instructions@.take(i as int + 1);
            assert(prefix.drop_last() =~= tx.instructions@.take(i as int));
            match execute(&self.config, &mut staged, &mut growth, &mut notes, &tx.instructions[i]) {
                Ok(()) => {},
                Err(kind) => {
                    proof {
                        assert(prefix.last() == tx.instructions@[i as int]);
                        assert(run(self.config, self.store@, prefix) == Err::<Staged, TxError>(
                            TxError { kind, instruction: Some(i) },
                        ));
                        lemma_run_failure_persists(self.config, self.store@, tx.instructions@, i as int + 1);
                    }
                    return Err(TxError { kind, instruction: Some(i) });
                },
            }
            proof {
                lemma_run_growth_bounded(self.config, self.store@, prefix);
            }
            i = i + 1;
        }
        proof {
            assert(tx.instructions@.take(i as int) =~= tx.instructions@);
        }
        proof {
            lemma_reserve_invariant(self.config, self.recent, self.store@, *tx);
        }
        self.store = staged;
        let ghost before = self.log@;
        let ghost added = notes@;
        self.log.append(&mut notes);
        proof {
            assert(notes_of(self.log@) =~= notes_of(before) + notes_of(added));
        }
        Ok(())
    }
}

} // verus!
