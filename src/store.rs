//! The account store: accounts keyed by address.
use crate::address::{same_address, Address};
use crate::error::ErrorKind;
use vstd::prelude::*;

verus! {

/// On-ledger state owned by one program. `authority` is meaningful for
/// metadata accounts only.
#[derive(Clone, Copy, Debug)]
pub struct Account {
    pub owner: Address,
    pub balance: u64,
    pub data_len: u64,
    pub authority: Address,
}

pub open spec fn zero_address() -> Address {
    Address { bytes: vstd::array::spec_array_fill_for_copy_type::<u8, 32>(0u8) }
}

/// The state of an address that holds nothing: owned by the system, no
/// balance, no data.
pub open spec fn empty_account() -> Account {
    Account { owner: zero_address(), balance: 0, data_len: 0, authority: zero_address() }
}

impl Account {
    pub fn empty() -> (r: Account)
        ensures
            r == empty_account(),
    {
        Account { owner: Address { bytes: [0u8; 32] }, balance: 0, data_len: 0, authority: Address { bytes: [0u8; 32] } }
    }
}

/// What `address` holds in `accounts`, the empty account where absent.
pub open spec fn account_at(accounts: Map<Seq<u8>, Account>, address: Seq<u8>) -> Account {
    if accounts.contains_key(address) {
        accounts[address]
    } else {
        empty_account()
    }
}

/// `accounts` with the balance at `address` set to `balance`.
pub open spec fn with_balance(accounts: Map<Seq<u8>, Account>, address: Seq<u8>, balance: u64) -> Map<Seq<u8>, Account> {
    accounts.insert(address, Account { balance, ..account_at(accounts, address) })
}

pub struct AccountStore {
    entries: Vec<(Address, Account)>,
}

/// The map that a list of entries describes; a later entry for an address
/// overrides an earlier one.
pub open spec fn map_of(entries: Seq<(Address, Account)>) -> Map<Seq<u8>, Account>
    decreases entries.len(),
{
    if entries.len() == 0 {
        Map::empty()
    } else {
        map_of(entries.drop_last()).insert(entries.last().0@, entries.last().1)
    }
}

proof fn lemma_map_of_absent(entries: Seq<(Address, Account)>, k: Seq<u8>)
    requires
        forall|j: int| 0 <= j < entries.len() ==> entries[j].0@ != k,
    ensures
        !map_of(entries).contains_key(k),
    decreases entries.len(),
{
    if entries.len() > 0 {
        lemma_map_of_absent(entries.drop_last(), k);
    }
}

proof fn lemma_map_of_last(entries: Seq<(Address, Account)>, i: int)
    requires
        0 <= i < entries.len(),
        forall|j: int| i < j < entries.len() ==> entries[j].0@ != entries[i].0@,
    ensures
        map_of(entries).contains_key(entries[i].0@),
        map_of(entries)[entries[i].0@] == entries[i].1,
    decreases entries.len(),
{
    if i < entries.len() - 1 {
        lemma_map_of_last(entries.drop_last(), i);
    }
}

proof fn lemma_map_of_update(entries: Seq<(Address, Account)>, i: int, e: (Address, Account))
    requires
        0 <= i < entries.len(),
        e.0@ == entries[i].0@,
        forall|j: int| i < j < entries.len() ==> entries[j].0@ != entries[i].0@,
    ensures
        map_of(entries.update(i, e)) == map_of(entries).insert(e.0@, e.1),
    decreases entries.len(),
{
    let u = entries.update(i, e);
    if i == entries.len() - 1 {
        assert(u.drop_last() =~= entries.drop_last());
        assert(map_of(u) =~= map_of(entries).insert(e.0@, e.1));
    } else {
        assert(u.drop_last() =~= entries.drop_last().update(i, e));
        lemma_map_of_update(entries.drop_last(), i, e);
        assert(map_of(u) =~= map_of(entries).insert(e.0@, e.1));
    }
}

impl View for AccountStore {
    type V = Map<Seq<u8>, Account>;

    closed spec fn view(&self) -> Map<Seq<u8>, Account> {
        map_of(self.entries@)
    }
}

impl AccountStore {
    pub fn new() -> (r: AccountStore)
        ensures
            r@ == Map::<Seq<u8>, Account>::empty(),
    {
        AccountStore { entries: Vec::new() }
    }

    /// The index of the last entry for `address`.
    fn find(&self, address: &Address) -> (r: Option<usize>)
        ensures
            r is Some ==> {
                let i = r->Some_0 as int;
                &&& 0 <= i < self.entries@.len()
                &&& self.entries@[i].0@ == address@
                &&& forall|j: int| i < j < self.entries@.len() ==> self.entries@[j].0@ != address@
            },
            r is None ==> forall|j: int| 0 <= j < self.entries@.len() ==> self.entries@[j].0@ != address@,
    {
        let mut i: usize = self.entries.len();
        while i > 0
            invariant
                i <= self.entries@.len(),
                forall|j: int| i <= j < self.entries@.len() ==> self.entries@[j].0@ != address@,
            decreases i,
        {
            i = i - 1;
            if same_address(&self.entries[i].0, address) {
                return Some(i);
            }
        }
        None
    }

    pub fn get(&self, address: &Address) -> (r: Option<Account>)
        ensures
            r == (if self@.contains_key(address@) { Some(self@[address@]) } else { None::<Account> }),
    {
        match self.find(address) {
            Some(i) => {
                proof {
                    lemma_map_of_last(self.entries@, i as int);
                }
                Some(self.entries[i].1)
            },
            None => {
                proof {
                    lemma_map_of_absent(self.entries@, address@);
                }
                None
            },
        }
    }

    /// The account at `address`, the empty account where there is none.
    pub fn account(&self, address: &Address) -> (r: Account)
        ensures
            r == account_at(self@, address@),
    {
        match self.get(address) {
            Some(a) => a,
            None => Account::empty(),
        }
    }

    pub fn put(&mut self, address: &Address, account: Account)
        ensures
            final(self)@ == old(self)@.insert(address@, account),
    {
        match self.find(address) {
            Some(i) => {
                proof {
                    lemma_map_of_update(self.entries@, i as int, (*address, account));
                }
                self.entries.set(i, (*address, account));
            },
            None => {
                self.entries.push((*address, account));
                proof {
                    assert(self.entries@.drop_last() =~= old(self).entries@);
                }
            },
        }
    }

    pub fn get_balance(&self, address: &Address) -> (r: u64)
        ensures
            r == account_at(self@, address@).balance,
    {
        self.account(address).balance
    }

    /// Adds `amount` to the balance at `address`.
    pub fn credit(&mut self, address: &Address, amount: u64) -> (r: Result<(), ErrorKind>)
        ensures
            r is Ok <==> account_at(old(self)@, address@).balance + amount <= u64::MAX,
            r is Ok ==> final(self)@ == with_balance(
                old(self)@,
                address@,
                (account_at(old(self)@, address@).balance + amount) as u64,
            ),
            r is Err ==> r->Err_0 == ErrorKind::InvalidTransaction && final(self)@ == old(self)@,
    {
        let acct = self.account(address);
        match acct.balance.checked_add(amount) {
            Some(b) => {
                self.put(address, Account { balance: b, ..acct });
                Ok(())
            },
            None => Err(ErrorKind::InvalidTransaction),
        }
    }

    /// Takes `amount` from the balance at `address`.
    pub fn debit(&mut self, address: &Address, amount: u64) -> (r: Result<(), ErrorKind>)
        ensures
            r is Ok <==> amount <= account_at(old(self)@, address@).balance,
            r is Ok ==> final(self)@ == with_balance(
                old(self)@,
                address@,
                (account_at(old(self)@, address@).balance - amount) as u64,
            ),
            r is Err ==> r->Err_0 == ErrorKind::InsufficientFunds && final(self)@ == old(self)@,
    {
        let acct = self.account(address);
        if amount > acct.balance {
            return Err(ErrorKind::InsufficientFunds);
        }
        self.put(address, Account { balance: acct.balance - amount, ..acct });
        Ok(())
    }

    /// A copy of the store with the same contents.
    pub fn duplicate(&self) -> (r: AccountStore)
        ensures
            r@ == self@,
    {
        let mut entries: Vec<(Address, Account)> = Vec::new();
        let mut i: usize = 0;
        while i < self.entries.len()
            invariant
                0 <= i <= self.entries@.len(),
                entries@ == self.entries@.subrange(0, i as int),
            decreases self.entries@.len() - i,
        {
            entries.push(self.entries[i]);
            i = i + 1;
            assert(entries@ =~= self.entries@.subrange(0, i as int));
        }
        assert(entries@ =~= self.entries@);
        AccountStore { entries }
    }
}

} // verus!
