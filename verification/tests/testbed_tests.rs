use benchmark_executor::config::{GlobalConfig, Role, BASE_METRICS_PORT, LOOPBACK_IP};
use benchmark_executor::dataset::{Account, GenesisObject, Transaction};
use benchmark_executor::storage::{export_dataset, import_dataset};
use benchmark_executor::workload::generate_benchmark_data;
use benchmark_executor::shard::{ExecutorShard, ShardError};
use benchmark_executor::testbed::{deploy_testbed, new_for_benchmark};

#[test]
fn deploy_testbed_builds_full_registry() {
    let configs = deploy_testbed(300, 4);
    assert_eq!(configs.len(), 5);
    for id in 0..5u64 {
        let cfg = configs.get(id).expect("id must be present");
        if id == 0 {
            assert_eq!(cfg.role, Role::Sequencing);
        } else {
            assert_eq!(cfg.role, Role::Execution);
        }
        assert_eq!(cfg.metrics_address.ip, LOOPBACK_IP);
        assert_eq!(cfg.metrics_address.port, BASE_METRICS_PORT + id as u16);
        let rate = cfg.attrs.get(&"tx_count".to_string());
        assert_eq!(rate, Some(&"300".to_string()));
    }
    assert!(configs.get(5).is_none());
}

#[test]
fn genesis_registry_has_one_sequencing_entry() {
    // Two loopback addresses and one sequencing worker, as a two-shard
    // genesis would be laid out.
    let ips = vec![LOOPBACK_IP, LOOPBACK_IP];
    let configs = new_for_benchmark(&ips, 1);
    assert_eq!(configs.len(), 2);
    let mut sequencing = 0;
    let mut execution = 0;
    for i in 0..configs.len() {
        let (id, cfg) = configs.entry_at(i);
        assert_eq!(id, i as u64);
        assert_eq!(cfg.attrs.len(), 0);
        match cfg.role {
            Role::Sequencing => sequencing += 1,
            Role::Execution => execution += 1,
        }
    }
    assert_eq!(sequencing, 1);
    assert_eq!(execution, 1);
}

#[test]
fn start_marks_shard_up() {
    let ips = vec![LOOPBACK_IP, LOOPBACK_IP, LOOPBACK_IP];
    let configs = new_for_benchmark(&ips, 1);
    let shard = ExecutorShard::start(&configs, 1).expect("known id must start");
    assert_eq!(shard.id, 1);
    assert_eq!(shard.role, Role::Execution);
    assert_eq!(shard.metrics_binding.ip, 0);
    assert_eq!(shard.metrics_binding.port, BASE_METRICS_PORT + 1);
    assert_eq!(shard.metrics.up_count(), 1);

    let sequencer = ExecutorShard::start(&configs, 0).expect("known id must start");
    assert_eq!(sequencer.role, Role::Sequencing);
    assert_eq!(sequencer.metrics.up_count(), 1);
}

#[test]
fn start_unknown_id_fails_fast() {
    let ips = vec![LOOPBACK_IP];
    let configs = new_for_benchmark(&ips, 1);
    match ExecutorShard::start(&configs, 42) {
        Err(ShardError::UnknownShardId(id)) => assert_eq!(id, 42),
        _ => panic!("an absent id must be rejected before anything is launched"),
    }
    let empty = GlobalConfig::new();
    assert!(matches!(
        ExecutorShard::start(&empty, 0),
        Err(ShardError::UnknownShardId(0))
    ));
}

#[test]
fn genesis_scenario_two_validators() {
    // Two loopback addresses, one sequencing worker, a rate of 300 for 10
    // seconds: the configuration holds exactly one sequencing-role entry and
    // the export is sized to 3000 transactions; importing from the same
    // artifacts reproduces count and content.
    let ips = vec![LOOPBACK_IP, LOOPBACK_IP];
    let configs = new_for_benchmark(&ips, 1);
    let sequencing = (0..configs.len())
        .filter(|&i| configs.entry_at(i).1.role == Role::Sequencing)
        .count();
    assert_eq!(sequencing, 1);

    let accounts: Vec<Account> = (0..10u8).map(|i| Account { data: vec![i] }).collect();
    let objects: Vec<GenesisObject> = (0..10u8).map(|i| GenesisObject { data: vec![i] }).collect();
    let produced: Vec<Transaction> = (0..3000u32)
        .map(|i| Transaction {
            data: i.to_le_bytes().to_vec(),
        })
        .collect();
    let (ctx, txs) = generate_benchmark_data(300, 10, accounts, objects, produced)
        .expect("3000 transactions for rate 300 over 10 seconds");
    assert_eq!(txs.len(), 3000);

    let files = export_dataset(ctx.get_accounts(), ctx.get_genesis_objects(), &txs);
    let (_, _, read_txs) = import_dataset(&files).expect("import must succeed");
    assert_eq!(read_txs.len(), 3000);
    for (a, b) in read_txs.iter().zip(txs.iter()) {
        assert_eq!(a.data, b.data);
    }
}

#[test]
fn set_attribute_updates_only_named_shard() {
    let ips = vec![LOOPBACK_IP, LOOPBACK_IP];
    let mut configs = new_for_benchmark(&ips, 1);
    assert!(configs.set_attribute(1, "duration".to_string(), "10".to_string()));
    let untouched = configs.get(0).unwrap();
    assert!(untouched.attrs.get(&"duration".to_string()).is_none());
    let updated = configs.get(1).unwrap();
    assert_eq!(
        updated.attrs.get(&"duration".to_string()),
        Some(&"10".to_string())
    );
    // An unknown id changes nothing and says so.
    assert!(!configs.set_attribute(9, "duration".to_string(), "10".to_string()));
}
