//! The executor-shard lifecycle: looking a shard up in the configuration
//! registry, creating its metrics, and handing the caller everything needed
//! to launch the agent task and the metrics endpoint.

use crate::config::{GlobalConfig, NetAddress, Role, ShardId, spec_shard_get, WILDCARD_IP};
use vstd::prelude::*;

verus! {

#[verifier::external_type_specification]
#[verifier::external_body]
pub struct ExRegistry(prometheus::Registry);

/// Carries one prometheus `IntCounter`. The counter type itself cannot be
/// declared to the verifier (its type parameter is bound by an outside
/// trait), so this struct holds it opaquely; the functions below state what
/// the counter's operations do.
#[verifier::external_body]
pub struct UpCounter {
    counter: prometheus::IntCounter,
}

/// The number the held counter currently reads.
pub uninterp spec fn counter_value(c: UpCounter) -> u64;

/// Relies on prometheus::Registry::new, prometheus::core::GenericCounter::new
/// (the `IntCounter` alias) and prometheus::Registry::register: a fresh
/// registry with a freshly created `up` counter registered in it. Counter
/// creation validates only the metric name and help text, and both are fixed
/// valid literals here; registering a single collector with a fresh registry
/// cannot collide with an earlier descriptor. So neither call can fail, and
/// the new counter reads zero.
#[verifier::external_body]
fn new_up_registry() -> (r: (prometheus::Registry, UpCounter))
    ensures
        counter_value(r.1) == 0,
{
    let registry = prometheus::Registry::new();
    let counter = prometheus::IntCounter::new("up", "One once the shard's server is scheduled.")
        .expect("the fixed metric name and help text are valid");
    registry
        .register(Box::new(counter.clone()))
        .expect("a fresh registry holds no duplicate descriptor");
    (registry, UpCounter { counter })
}

/// Relies on prometheus::core::GenericCounter::inc: one atomic add of 1 to
/// the counter.
#[verifier::external_body]
fn counter_inc(c: &mut UpCounter)
    requires
        counter_value(*old(c)) < u64::MAX,
    ensures
        counter_value(*final(c)) == counter_value(*old(c)) + 1,
{
    c.counter.inc()
}

/// Relies on prometheus::core::GenericCounter::get: one atomic load of the
/// counter.
#[verifier::external_body]
fn counter_get(c: &UpCounter) -> (v: u64)
    ensures
        v == counter_value(*c),
{
    c.counter.get()
}

/// Why a shard could not be prepared.
#[derive(Clone, Copy, Debug, PartialEq, Eq, Structural)]
pub enum ShardError {
    /// The registry holds no shard under the requested id: a fatal
    /// configuration mismatch, reported before anything is launched.
    UnknownShardId(ShardId),
}

/// The metrics one shard exposes for post-run inspection.
pub struct Metrics {
    /// Reads 1 once the shard has launched.
    pub up: UpCounter,
}

impl Metrics {
    /// Creates the metrics set, registered with a fresh metrics registry;
    /// every counter starts at zero.
    pub fn new() -> (r: (Metrics, prometheus::Registry))
        ensures
            counter_value(r.0.up) == 0,
    {
        let (registry, up) = new_up_registry();
        (Metrics { up }, registry)
    }

    /// What the `up` counter currently reads.
    pub fn up_count(&self) -> (v: u64)
        ensures
            v == counter_value(self.up),
    {
        counter_get(&self.up)
    }
}

/// One prepared executor shard: its resolved role, its metrics (already
/// registered and marked up), and the wildcard-bound metrics endpoint
/// address. The caller owns it exclusively: it launches the agent task and
/// the metrics endpoint from these values, then either awaits the agent task
/// or detaches the shard.
pub struct ExecutorShard {
    /// The id the shard was started under.
    pub id: ShardId,
    /// The role resolved from the registry entry.
    pub role: Role,
    /// The shard's metrics; `up` reads 1.
    pub metrics: Metrics,
    /// The metrics registry the endpoint serves.
    pub registry: prometheus::Registry,
    /// Where the metrics endpoint binds: the wildcard address with the
    /// configured port.
    pub metrics_binding: NetAddress,
}

impl ExecutorShard {
    /// Prepares an executor shard to run (non-blocking). Looks `id` up in
    /// `global_configs`: an absent id fails immediately, before any task or
    /// metric exists, and every present id succeeds. On success the shard's
    /// role is the configured one, its metrics endpoint address is the
    /// wildcard address with the configured port, and its `up` counter reads
    /// exactly 1. The counter is raised here, as the shard's "server is up"
    /// signal, just before the caller schedules the agent task and the
    /// metrics endpoint from the returned value.
    pub fn start(global_configs: &GlobalConfig, id: ShardId) -> (r: Result<
        ExecutorShard,
        ShardError,
    >)
        ensures
            r is Ok <==> spec_shard_get(global_configs@, id) is Some,
            r is Err ==> r == Err::<ExecutorShard, _>(ShardError::UnknownShardId(id)),
            r matches Ok(shard) ==> {
                &&& spec_shard_get(global_configs@, id) matches Some(cfg) && shard.role == cfg.role
                    && shard.metrics_binding == (NetAddress {
                    ip: WILDCARD_IP,
                    port: cfg.metrics_address.port,
                })
                &&& shard.id == id
                &&& counter_value(shard.metrics.up) == 1
            },
    {
        let cfg = match global_configs.get(id) {
            Some(c) => c,
            None => {
                return Err(ShardError::UnknownShardId(id));
            },
        };
        let (mut metrics, registry) = Metrics::new();
        let metrics_binding = NetAddress { ip: WILDCARD_IP, port: cfg.metrics_address.port };
        let role = cfg.role;
        counter_inc(&mut metrics.up);
        Ok(ExecutorShard { id, role, metrics, registry, metrics_binding })
    }
}

} // verus!
