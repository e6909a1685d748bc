//! Testbed orchestration: building the configuration registry for one
//! sequencing shard plus N execution shards, with the benchmark parameters
//! written into every shard's attribute bag before anything is spawned.

use crate::config::{
    attrs_wf, lemma_distinct_ids_wf, lemma_shard_absent_above, lemma_shard_present, registry_wf,
    spec_attr_get, AttrBag, GlobalConfig, NetAddress, Role, ShardConfig, ShardId,
    BASE_METRICS_PORT, LOOPBACK_IP,
};
use crate::decimal::{spec_digits, u64_to_string};
use vstd::prelude::*;
use vstd::string::StringExecFns;

verus! {

/// Builds the registry of a benchmark run: one shard per address, ids
/// counting up from 0, the first `sequence_workers` shards with the
/// sequencing role and the rest with the execution role. Shard `i` exposes
/// its metrics on its address at port `BASE_METRICS_PORT + i`; every
/// attribute bag starts empty.
pub fn new_for_benchmark(ips: &Vec<u32>, sequence_workers: usize) -> (c: GlobalConfig)
    requires
        ips@.len() + BASE_METRICS_PORT <= u16::MAX,
    ensures
        c@.len() == ips@.len(),
        registry_wf(c@),
        forall|i: int|
            0 <= i < c@.len() ==> {
                &&& (#[trigger] c@[i]).0 == i as ShardId
                &&& c@[i].1.role == (if i < sequence_workers as int {
                    Role::Sequencing
                } else {
                    Role::Execution
                })
                &&& c@[i].1.metrics_address == (NetAddress {
                    ip: ips@[i],
                    port: (BASE_METRICS_PORT + i) as u16,
                })
                &&& c@[i].1.attrs@.len() == 0
                &&& attrs_wf(c@[i].1.attrs@)
            },
{
    let mut c = GlobalConfig::new();
    let n = ips.len();
    let mut i: usize = 0;
    while i < n
        invariant
            i <= n,
            n == ips@.len(),
            n + BASE_METRICS_PORT <= u16::MAX,
            c@.len() == i,
            forall|j: int|
                0 <= j < i ==> {
                    &&& (#[trigger] c@[j]).0 == j as ShardId
                    &&& c@[j].1.role == (if j < sequence_workers as int {
                        Role::Sequencing
                    } else {
                        Role::Execution
                    })
                    &&& c@[j].1.metrics_address == (NetAddress {
                        ip: ips@[j],
                        port: (BASE_METRICS_PORT + j) as u16,
                    })
                    &&& c@[j].1.attrs@.len() == 0
                    &&& attrs_wf(c@[j].1.attrs@)
                },
        decreases n - i,
    {
        let role = if i < sequence_workers {
            Role::Sequencing
        } else {
            Role::Execution
        };
        let metrics_address = NetAddress { ip: ips[i], port: BASE_METRICS_PORT + (i as u16) };
        let cfg = ShardConfig { role, metrics_address, attrs: AttrBag::new() };
        proof {
            lemma_shard_absent_above(c@, i as ShardId);
        }
        c.push(i as ShardId, cfg);
        i = i + 1;
    }
    proof {
        lemma_distinct_ids_wf(c@);
    }
    c
}

/// Builds and resolves the registry of a local testbed: one sequencing shard
/// (id 0) and `execution_workers` execution shards (ids 1 through N), all on
/// loopback, with the target transaction rate written into every shard's
/// attribute bag under `"tx_count"` strictly before any shard is spawned.
pub fn deploy_testbed(tx_count: u64, execution_workers: usize) -> (c: GlobalConfig)
    requires
        execution_workers + 1 + BASE_METRICS_PORT <= u16::MAX,
    ensures
        c@.len() == execution_workers + 1,
        registry_wf(c@),
        forall|i: int|
            0 <= i < c@.len() ==> {
                &&& (#[trigger] c@[i]).0 == i as ShardId
                &&& c@[i].1.role == (if i == 0 {
                    Role::Sequencing
                } else {
                    Role::Execution
                })
                &&& c@[i].1.metrics_address.ip == LOOPBACK_IP
                &&& spec_attr_get(c@[i].1.attrs@, "tx_count"@) == Some(spec_digits(tx_count as int))
                &&& attrs_wf(c@[i].1.attrs@)
            },
{
    let sequence_workers: usize = 1;
    let n = execution_workers + 1;
    let ips: Vec<u32> = vec![LOOPBACK_IP; n];
    let mut c = new_for_benchmark(&ips, sequence_workers);
    let mut id: usize = 0;
    while id < n
        invariant
            id <= n,
            c@.len() == n,
            n + BASE_METRICS_PORT <= u16::MAX,
            forall|j: int|
                0 <= j < n ==> {
                    &&& (#[trigger] c@[j]).0 == j as ShardId
                    &&& c@[j].1.role == (if j == 0 {
                        Role::Sequencing
                    } else {
                        Role::Execution
                    })
                    &&& c@[j].1.metrics_address.ip == LOOPBACK_IP
                    &&& attrs_wf(c@[j].1.attrs@)
                },
            forall|j: int|
                0 <= j < id ==> spec_attr_get(#[trigger] c@[j].1.attrs@, "tx_count"@) == Some(
                    spec_digits(tx_count as int),
                ),
        decreases n - id,
    {
        let value = u64_to_string(tx_count);
        let key = String::from_str("tx_count");
        proof {
            lemma_shard_present(c@, id as int, id as ShardId);
        }
        let updated = c.set_attribute(id as ShardId, key, value);
        proof {
            assert(updated);
        }
        id = id + 1;
    }
    proof {
        lemma_distinct_ids_wf(c@);
    }
    c
}

} // verus!
