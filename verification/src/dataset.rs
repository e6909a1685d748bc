//! The generated benchmark dataset: accounts, genesis objects and
//! transactions. Each item is carried as its opaque serialized bytes; this
//! layer never looks inside them, it only counts, stores and reloads them.

use vstd::prelude::*;

verus! {

/// One benchmark account, as its serialized bytes.
pub struct Account {
    pub data: Vec<u8>,
}

impl View for Account {
    type V = Seq<u8>;

    open spec fn view(&self) -> Seq<u8> {
        self.data@
    }
}

/// One genesis object, as its serialized bytes.
pub struct GenesisObject {
    pub data: Vec<u8>,
}

impl View for GenesisObject {
    type V = Seq<u8>;

    open spec fn view(&self) -> Seq<u8> {
        self.data@
    }
}

/// One benchmark transaction, as its serialized bytes.
pub struct Transaction {
    pub data: Vec<u8>,
}

impl View for Transaction {
    type V = Seq<u8>;

    open spec fn view(&self) -> Seq<u8> {
        self.data@
    }
}

/// The context generated once per benchmark run: the accounts and the genesis
/// objects that the transactions operate on. Produced once, consumed by
/// transaction generation and by export, never reused across runs.
pub struct BenchmarkContext {
    pub accounts: Vec<Account>,
    pub genesis_objects: Vec<GenesisObject>,
}

impl BenchmarkContext {
    /// Wraps generated accounts and genesis objects.
    pub fn new(accounts: Vec<Account>, genesis_objects: Vec<GenesisObject>) -> (c: BenchmarkContext)
        ensures
            c.accounts == accounts,
            c.genesis_objects == genesis_objects,
    {
        BenchmarkContext { accounts, genesis_objects }
    }

    /// The generated accounts.
    pub fn get_accounts(&self) -> (r: &Vec<Account>)
        ensures
            *r == self.accounts,
    {
        &self.accounts
    }

    /// The generated genesis objects.
    pub fn get_genesis_objects(&self) -> (r: &Vec<GenesisObject>)
        ensures
            *r == self.genesis_objects,
    {
        &self.genesis_objects
    }
}

} // verus!
