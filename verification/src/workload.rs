//! Workload sizing for one benchmark run: the target transaction volume is
//! the steady-state rate times the duration, and a produced transaction set
//! is accepted only when it meets that volume exactly.

use crate::dataset::{Account, BenchmarkContext, GenesisObject, Transaction};
use vstd::prelude::*;

verus! {

/// The workload descriptor of one run.
pub struct Workload {
    /// The total number of transactions to generate.
    pub tx_count: u64,
}

impl Workload {
    /// The workload for a steady-state target of `tx_rate` transactions per
    /// second held for `duration_secs` seconds: the volume scales linearly
    /// with the duration.
    pub fn new(tx_rate: u64, duration_secs: u64) -> (w: Workload)
        requires
            tx_rate * duration_secs <= u64::MAX,
        ensures
            w.tx_count == tx_rate * duration_secs,
    {
        Workload { tx_count: tx_rate * duration_secs }
    }
}

/// Why a generated dataset was rejected.
#[derive(Clone, Copy, Debug, PartialEq, Eq, Structural)]
pub enum WorkloadError {
    /// The produced transaction set does not match the workload's target
    /// volume.
    VolumeMismatch,
}

/// Accepts the transaction set materialized for `workload` exactly when its
/// length equals the workload's target volume, and hands it back unchanged
/// and in order.
pub fn materialize_transactions(workload: &Workload, produced: Vec<Transaction>) -> (r: Result<
    Vec<Transaction>,
    WorkloadError,
>)
    ensures
        r is Ok <==> produced@.len() == workload.tx_count,
        r matches Ok(t) ==> t == produced,
        r is Err ==> r == Err::<Vec<Transaction>, _>(WorkloadError::VolumeMismatch),
{
    if produced.len() as u64 == workload.tx_count {
        Ok(produced)
    } else {
        Err(WorkloadError::VolumeMismatch)
    }
}

/// Assembles the generated benchmark data of one run: the context wraps the
/// externally generated accounts and genesis objects, and the transaction
/// set is accepted exactly when it meets the target volume
/// `tx_count * duration_secs`, eagerly and in order.
pub fn generate_benchmark_data(
    tx_count: u64,
    duration_secs: u64,
    accounts: Vec<Account>,
    genesis_objects: Vec<GenesisObject>,
    produced: Vec<Transaction>,
) -> (r: Result<(BenchmarkContext, Vec<Transaction>), WorkloadError>)
    requires
        tx_count * duration_secs <= u64::MAX,
    ensures
        r is Ok <==> produced@.len() == tx_count * duration_secs,
        r matches Ok(p) ==> p.0.accounts == accounts && p.0.genesis_objects == genesis_objects
            && p.1 == produced,
        r is Err ==> r == Err::<(BenchmarkContext, Vec<Transaction>), _>(
            WorkloadError::VolumeMismatch,
        ),
{
    let workload = Workload::new(tx_count, duration_secs);
    match materialize_transactions(&workload, produced) {
        Ok(transactions) => Ok((BenchmarkContext::new(accounts, genesis_objects), transactions)),
        Err(e) => Err(e),
    }
}

} // verus!
