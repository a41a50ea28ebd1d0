//! The accounts and the code that a transaction finds when it starts.

use crate::assoc::{
    as_map, keys_differ, lemma_entry_in_map, lemma_map_size, lemma_push_is_insert,
    lemma_update_is_insert,
};
use crate::primitives::{Address, Word, H256};
use vstd::prelude::*;

verus! {

/// What is stored of an account.
#[derive(Clone, Copy, Debug, PartialEq, Eq, Structural)]
pub struct Account {
    /// Number of transactions sent from the account.
    pub nonce: Word,
    /// What the account owns.
    pub balance: Word,
    /// Hash of the code of the account.
    pub code_hash: H256,
}

impl Account {
    /// The account with nothing in it.
    pub open spec fn spec_zero() -> Account {
        Account {
            nonce: Word { hi: 0, lo: 0 },
            balance: Word { hi: 0, lo: 0 },
            code_hash: H256::spec_zero(),
        }
    }

    /// The account with nothing in it.
    pub fn zero() -> (r: Account)
        ensures
            r == Account::spec_zero(),
    {
        Account { nonce: Word::zero(), balance: Word::zero(), code_hash: H256::zero() }
    }
}

/// The accounts, each under its address.
///
/// Its view is the map from the addresses that have an account to their
/// accounts.
#[derive(Debug)]
pub struct StateDB {
    entries: Vec<(Address, Account)>,
}

impl View for StateDB {
    type V = Map<Address, Account>;

    closed spec fn view(&self) -> Map<Address, Account> {
        as_map(self.entries@)
    }
}

impl StateDB {
    /// No address is stored twice.
    pub closed spec fn wf(&self) -> bool {
        keys_differ(self.entries@)
    }

    /// A store without accounts.
    pub fn new() -> (r: StateDB)
        ensures
            r.wf(),
            r@ == Map::<Address, Account>::empty(),
    {
        let r = StateDB { entries: Vec::new() };
        assert(r@ =~= Map::<Address, Account>::empty());
        r
    }

    /// Stores `account` under `addr`, in place of what was there.
    pub fn set_account(&mut self, addr: &Address, account: Account)
        requires
            old(self).wf(),
        ensures
            final(self).wf(),
            final(self)@ == old(self)@.insert(*addr, account),
    {
        let n: usize = self.entries.len();
        let mut i: usize = 0;
        while i < n
            invariant
                n == self.entries@.len(),
                i <= n,
                *self == *old(self),
                keys_differ(self.entries@),
                forall|k: int| 0 <= k < i ==> (#[trigger] self.entries@[k]).0 != *addr,
            decreases n - i,
        {
            if self.entries[i].0 == *addr {
                proof {
                    lemma_update_is_insert(self.entries@, i as int, account);
                }
                self.entries.set(i, (*addr, account));
                return ;
            }
            i = i + 1;
        }
        proof {
            lemma_push_is_insert(self.entries@, *addr, account);
        }
        self.entries.push((*addr, account));
    }

    /// Whether an account is stored under `addr`, and the account; the
    /// account with nothing in it where none is stored.
    pub fn get_account(&self, addr: &Address) -> (r: (bool, Account))
        requires
            self.wf(),
        ensures
            r.0 == self@.contains_key(*addr),
            r.0 ==> r.1 == self@[*addr],
            !r.0 ==> r.1 == Account::spec_zero(),
    {
        let n: usize = self.entries.len();
        let mut i: usize = 0;
        while i < n
            invariant
                n == self.entries@.len(),
                i <= n,
                keys_differ(self.entries@),
                forall|k: int| 0 <= k < i ==> (#[trigger] self.entries@[k]).0 != *addr,
            decreases n - i,
        {
            if self.entries[i].0 == *addr {
                proof {
                    lemma_entry_in_map(self.entries@, i as int);
                }
                return (true, self.entries[i].1);
            }
            i = i + 1;
        }
        (false, Account::zero())
    }
}

/// The code of the contracts, each under its hash.
///
/// Its view is the map from the hashes to the bytes of the code.
#[derive(Debug)]
pub struct CodeDB {
    entries: Vec<(H256, Vec<u8>)>,
}

impl View for CodeDB {
    type V = Map<H256, Seq<u8>>;

    closed spec fn view(&self) -> Map<H256, Seq<u8>> {
        as_map(self.entries@).map_values(|code: Vec<u8>| code@)
    }
}

impl CodeDB {
    /// No hash is stored twice.
    pub closed spec fn wf(&self) -> bool {
        keys_differ(self.entries@)
    }

    /// A store without code.
    pub fn new() -> (r: CodeDB)
        ensures
            r.wf(),
            r@ == Map::<H256, Seq<u8>>::empty(),
    {
        let r = CodeDB { entries: Vec::new() };
        assert(r@ =~= Map::<H256, Seq<u8>>::empty());
        r
    }

    /// Stores `code` under `hash`, in place of what was there. The caller
    /// names the hash of the code.
    pub fn insert(&mut self, hash: H256, code: Vec<u8>)
        requires
            old(self).wf(),
        ensures
            final(self).wf(),
            final(self)@ == old(self)@.insert(hash, code@),
    {
        let n: usize = self.entries.len();
        let mut i: usize = 0;
        while i < n
            invariant
                n == self.entries@.len(),
                i <= n,
                *self == *old(self),
                keys_differ(self.entries@),
                forall|k: int| 0 <= k < i ==> (#[trigger] self.entries@[k]).0 != hash,
            decreases n - i,
        {
            if self.entries[i].0 == hash {
                proof {
                    lemma_update_is_insert(self.entries@, i as int, code);
                    assert(as_map(self.entries@.update(i as int, (hash, code))).map_values(
                        |code: Vec<u8>| code@,
                    ) =~= as_map(self.entries@).map_values(|code: Vec<u8>| code@).insert(
                        hash,
                        code@,
                    ));
                }
                self.entries.set(i, (hash, code));
                return ;
            }
            i = i + 1;
        }
        proof {
            lemma_push_is_insert(self.entries@, hash, code);
            assert(as_map(self.entries@.push((hash, code))).map_values(|code: Vec<u8>| code@)
                =~= as_map(self.entries@).map_values(|code: Vec<u8>| code@).insert(hash, code@));
        }
        self.entries.push((hash, code));
    }

    /// The code stored under `hash`.
    pub fn get(&self, hash: &H256) -> (r: Option<&Vec<u8>>)
        requires
            self.wf(),
        ensures
            r is Some == self@.contains_key(*hash),
            r matches Some(code) ==> code@ == self@[*hash],
    {
        let n: usize = self.entries.len();
        let mut i: usize = 0;
        while i < n
            invariant
                n == self.entries@.len(),
                i <= n,
                keys_differ(self.entries@),
                forall|k: int| 0 <= k < i ==> (#[trigger] self.entries@[k]).0 != *hash,
            decreases n - i,
        {
            if self.entries[i].0 == *hash {
                proof {
                    lemma_entry_in_map(self.entries@, i as int);
                }
                return Some(&self.entries[i].1);
            }
            i = i + 1;
        }
        None
    }

    /// How many pieces of code are stored.
    pub fn len(&self) -> (r: usize)
        requires
            self.wf(),
        ensures
            r == self@.len(),
            self@.dom().finite(),
    {
        proof {
            lemma_map_size(self.entries@);
            assert(as_map(self.entries@).map_values(|code: Vec<u8>| code@).dom() =~= as_map(
                self.entries@,
            ).dom());
        }
        self.entries.len()
    }
}

} // verus!
