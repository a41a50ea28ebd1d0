//! A transaction with its calls and its steps.

use crate::call::{Call, CallKind, CodeSource};
use crate::error::Error;
use crate::execution::ExecStep;
use crate::primitives::{Address, Word, H256};
use crate::state_db::{Account, CodeDB, StateDB};
use crate::trace::EthTransaction;
use vstd::prelude::*;

verus! {

/// What only a hash function can tell of a transaction that creates a
/// contract. This crate holds no hash function: the caller works both out.
#[derive(Clone, Copy, Debug, PartialEq, Eq, Structural)]
pub struct ContractCreation {
    /// Hash of the input of the transaction, the code that sets the
    /// contract up.
    pub code_hash: H256,
    /// Address of the contract, which follows from the sender and its nonce.
    pub address: Address,
}

/// A transaction, as contracts see it.
pub struct TransactionView {
    pub nonce: u64,
    pub gas: u64,
    pub gas_price: Word,
    pub from: Address,
    pub to: Address,
    pub value: Word,
    pub input: Seq<u8>,
    /// The calls made in the transaction, the root call first.
    pub calls: Seq<Call>,
    /// The steps of the execution.
    pub steps: Seq<ExecStep>,
}

/// What building a transaction from `eth_tx` needs to find: the account of
/// the sender and, where the transaction names a receiver, that of the
/// receiver. The address of the first that is not stored, if any.
pub open spec fn missing_account(accounts: Map<Address, Account>, eth_tx: EthTransaction) -> Option<
    Address,
> {
    if !accounts.contains_key(eth_tx.from) {
        Some(eth_tx.from)
    } else {
        match eth_tx.to {
            Some(address) => if accounts.contains_key(address) {
                None
            } else {
                Some(address)
            },
            None => None,
        }
    }
}

/// The root call of a transaction: the call that the transaction itself
/// makes.
///
/// With a receiver it is a `Call` of the code stored for the receiver.
/// Without one it is a `Create`: it runs the input of the transaction at the
/// address of the new contract. Either way it stands at depth 1, and it is
/// persistent exactly if it succeeds, since no call stands above it.
pub open spec fn root_call(
    call_id: usize,
    accounts: Map<Address, Account>,
    eth_tx: EthTransaction,
    is_success: bool,
    creation: ContractCreation,
) -> Call {
    match eth_tx.to {
        Some(address) => Call {
            call_id,
            kind: CallKind::Call,
            is_root: true,
            is_persistent: is_success,
            is_success,
            caller_address: eth_tx.from,
            address,
            code_source: CodeSource::Address(address),
            code_hash: accounts[address].code_hash,
            depth: 1,
            value: eth_tx.value,
            call_data_length: eth_tx.input@.len() as u64,
            ..Call::spec_default()
        },
        None => Call {
            call_id,
            kind: CallKind::Create,
            is_root: true,
            is_persistent: is_success,
            is_success,
            caller_address: eth_tx.from,
            address: creation.address,
            code_source: CodeSource::Tx,
            code_hash: creation.code_hash,
            depth: 1,
            value: eth_tx.value,
            ..Call::spec_default()
        },
    }
}

/// The transaction that `eth_tx` gives where every account it needs is
/// stored: its own fields, its root call, and no step yet.
pub open spec fn built_transaction(
    call_id: usize,
    accounts: Map<Address, Account>,
    eth_tx: EthTransaction,
    is_success: bool,
    creation: ContractCreation,
) -> TransactionView {
    TransactionView {
        nonce: eth_tx.nonce@ as u64,
        gas: eth_tx.gas@ as u64,
        gas_price: match eth_tx.gas_price {
            Some(price) => price,
            None => Word { hi: 0, lo: 0 },
        },
        from: eth_tx.from,
        to: match eth_tx.to {
            Some(address) => address,
            None => Address::spec_zero(),
        },
        value: eth_tx.value,
        input: eth_tx.input@,
        calls: seq![root_call(call_id, accounts, eth_tx, is_success, creation)],
        steps: Seq::empty(),
    }
}

/// The code store after a transaction has been built from `eth_tx`: the
/// input of a transaction that creates a contract is stored under its
/// hash, and nothing else changes. Nothing is stored where an account is
/// missing.
pub open spec fn codes_after(
    codes: Map<H256, Seq<u8>>,
    accounts: Map<Address, Account>,
    eth_tx: EthTransaction,
    creation: ContractCreation,
) -> Map<H256, Seq<u8>> {
    if missing_account(accounts, eth_tx) is None && eth_tx.to is None {
        codes.insert(creation.code_hash, eth_tx.input@)
    } else {
        codes
    }
}

/// A transaction with the calls made in it and the steps of its execution.
#[derive(Debug)]
pub struct Transaction {
    /// Nonce
    pub nonce: u64,
    /// Gas
    pub gas: u64,
    /// Gas price
    pub gas_price: Word,
    /// The sender
    pub from: Address,
    /// The receiver; the zero address where the transaction creates a
    /// contract
    pub to: Address,
    /// Value
    pub value: Word,
    /// Call data
    pub input: Vec<u8>,
    /// The calls made in the transaction, the root call first
    calls: Vec<Call>,
    /// The steps of the execution
    steps: Vec<ExecStep>,
}

impl View for Transaction {
    type V = TransactionView;

    closed spec fn view(&self) -> TransactionView {
        TransactionView {
            nonce: self.nonce,
            gas: self.gas,
            gas_price: self.gas_price,
            from: self.from,
            to: self.to,
            value: self.value,
            input: self.input@,
            calls: self.calls@,
            steps: self.steps@,
        }
    }
}

impl Clone for Transaction {
    fn clone(&self) -> (r: Transaction)
        ensures
            r@ == self@,
    {
        let r = Transaction {
            nonce: self.nonce,
            gas: self.gas,
            gas_price: self.gas_price,
            from: self.from,
            to: self.to,
            value: self.value,
            input: self.input.clone(),
            calls: self.calls.clone(),
            steps: self.steps.clone(),
        };
        assert(r.input@ =~= self.input@);
        assert(r.calls@ =~= self.calls@);
        assert(r.steps@ =~= self.steps@);
        r
    }
}

impl TransactionView {
    /// The transaction has a root call, which stands first among its calls
    /// and at depth 1.
    pub open spec fn wf(self) -> bool {
        &&& self.calls.len() > 0
        &&& self.calls[0].is_root
        &&& self.calls[0].depth == 1
    }
}

impl Transaction {
    /// Builds the transaction from `eth_tx`, with its root call.
    ///
    /// Fails with `AccountNotFound` where the sender has no account, and
    /// where the receiver has none; nothing is stored then. A transaction
    /// without a receiver creates a contract: its input is stored in
    /// `code_db` under `creation.code_hash`, once.
    pub fn new(
        call_id: usize,
        sdb: &StateDB,
        code_db: &mut CodeDB,
        eth_tx: &EthTransaction,
        is_success: bool,
        creation: &ContractCreation,
    ) -> (r: Result<Transaction, Error>)
        requires
            sdb.wf(),
            old(code_db).wf(),
            missing_account(sdb@, *eth_tx) is None ==> eth_tx.nonce@ <= u64::MAX && eth_tx.gas@
                <= u64::MAX,
        ensures
            match r {
                Ok(tx) => {
                    &&& missing_account(sdb@, *eth_tx) is None
                    &&& tx@ == built_transaction(call_id, sdb@, *eth_tx, is_success, *creation)
                    &&& tx@.wf()
                },
                Err(e) => missing_account(sdb@, *eth_tx) matches Some(address) && e
                    == Error::AccountNotFound(address),
            },
            final(code_db).wf(),
            final(code_db)@ == codes_after(old(code_db)@, sdb@, *eth_tx, *creation),
    {
        let (found, _) = sdb.get_account(&eth_tx.from);
        if !found {
            return Err(Error::AccountNotFound(eth_tx.from));
        }
        let call = match eth_tx.to {
            Some(address) => {
                let (found, account) = sdb.get_account(&address);
                if !found {
                    return Err(Error::AccountNotFound(address));
                }
                let mut call = Call::default();
                call.call_id = call_id;
                call.kind = CallKind::Call;
                call.is_root = true;
                call.is_persistent = is_success;
                call.is_success = is_success;
                call.caller_address = eth_tx.from;
                call.address = address;
                call.code_source = CodeSource::Address(address);
                call.code_hash = account.code_hash;
                call.depth = 1;
                call.value = eth_tx.value;
                call.call_data_length = eth_tx.input.len() as u64;
                call
            },
            None => {
                code_db.insert(creation.code_hash, eth_tx.input.clone());
                let mut call = Call::default();
                call.call_id = call_id;
                call.kind = CallKind::Create;
                call.is_root = true;
                call.is_persistent = is_success;
                call.is_success = is_success;
                call.caller_address = eth_tx.from;
                call.address = creation.address;
                call.code_source = CodeSource::Tx;
                call.code_hash = creation.code_hash;
                call.depth = 1;
                call.value = eth_tx.value;
                call
            },
        };
        let mut calls: Vec<Call> = Vec::new();
        calls.push(call);
        assert(calls@ =~= seq![call]);
        Ok(
            Transaction {
                nonce: eth_tx.nonce.as_u64(),
                gas: eth_tx.gas.as_u64(),
                gas_price: match eth_tx.gas_price {
                    Some(price) => price,
                    None => Word::default(),
                },
                from: eth_tx.from,
                to: match eth_tx.to {
                    Some(address) => address,
                    None => Address::default(),
                },
                value: eth_tx.value,
                input: eth_tx.input.clone(),
                calls,
                steps: Vec::new(),
            },
        )
    }

    /// Nonce of the sender.
    pub fn nonce(&self) -> (r: u64)
        ensures
            r == self@.nonce,
    {
        self.nonce
    }

    /// Gas that the transaction may use.
    pub fn gas(&self) -> (r: u64)
        ensures
            r == self@.gas,
    {
        self.gas
    }

    /// Price of a unit of gas; zero where the transaction named none.
    pub fn gas_price(&self) -> (r: Word)
        ensures
            r == self@.gas_price,
    {
        self.gas_price
    }

    /// The sender.
    pub fn from(&self) -> (r: Address)
        ensures
            r == self@.from,
    {
        self.from
    }

    /// The receiver; the zero address where the transaction creates a
    /// contract.
    pub fn to(&self) -> (r: Address)
        ensures
            r == self@.to,
    {
        self.to
    }

    /// The value that is handed over.
    pub fn value(&self) -> (r: Word)
        ensures
            r == self@.value,
    {
        self.value
    }

    /// The call data, or the code that sets up the new contract.
    pub fn input(&self) -> (r: &Vec<u8>)
        ensures
            r@ == self@.input,
    {
        &self.input
    }

    /// Whether the transaction creates a contract.
    pub fn is_create(&self) -> (r: bool)
        requires
            self@.wf(),
        ensures
            r == (self@.calls[0].kind is Create || self@.calls[0].kind is Create2),
    {
        self.calls[0].is_create()
    }

    /// The steps of the execution.
    pub fn steps(&self) -> (r: &[ExecStep])
        ensures
            r@ == self@.steps,
    {
        self.steps.as_slice()
    }

    /// The steps of the execution, to be changed in place. What the caller
    /// leaves there is what the transaction then holds; nothing else
    /// changes.
    pub fn steps_mut(&mut self) -> (r: &mut Vec<ExecStep>)
        ensures
            r@ == old(self)@.steps,
            final(self)@ == (TransactionView { steps: final(r)@, ..old(self)@ }),
    {
        &mut self.steps
    }

    /// The calls made in the transaction, the root call first.
    pub fn calls(&self) -> (r: &[Call])
        ensures
            r@ == self@.calls,
    {
        self.calls.as_slice()
    }

    /// Adds a call made in the transaction after those that are there.
    pub fn push_call(&mut self, call: Call)
        ensures
            final(self)@ == (TransactionView { calls: old(self)@.calls.push(call), ..old(self)@ }),
            old(self)@.wf() ==> final(self)@.wf(),
    {
        self.calls.push(call);
    }
}

} // verus!
