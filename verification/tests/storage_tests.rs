use benchmark_executor::dataset::{Account, GenesisObject, Transaction};
use benchmark_executor::storage::{export_dataset, import_dataset, DatasetFiles};
use benchmark_executor::workload::generate_benchmark_data;

fn account(bytes: Vec<u8>) -> Account {
    Account { data: bytes }
}

fn genesis_object(bytes: Vec<u8>) -> GenesisObject {
    GenesisObject { data: bytes }
}

fn transaction(bytes: Vec<u8>) -> Transaction {
    Transaction { data: bytes }
}

#[test]
fn export_test() {
    let tx_count: u64 = 300;
    let duration_secs: u64 = 10;

    let accounts: Vec<Account> = (0..100u32)
        .map(|i| account(i.to_le_bytes().to_vec()))
        .collect();
    let objects: Vec<GenesisObject> = (0..50u32)
        .map(|i| genesis_object(vec![i as u8, 0xab]))
        .collect();
    let produced: Vec<Transaction> = (0..3000u32)
        .map(|i| transaction(i.to_le_bytes().to_vec()))
        .collect();

    let (ctx, txs) = generate_benchmark_data(tx_count, duration_secs, accounts, objects, produced)
        .expect("volume must match rate times duration");
    assert_eq!(txs.len(), 3000);

    let files = export_dataset(ctx.get_accounts(), ctx.get_genesis_objects(), &txs);
    let (read_accounts, read_objects, read_txs) =
        import_dataset(&files).expect("import must succeed");

    assert_eq!(read_accounts.len(), ctx.get_accounts().len());
    assert_eq!(read_objects.len(), ctx.get_genesis_objects().len());
    for (a, b) in read_objects.iter().zip(ctx.get_genesis_objects().iter()) {
        assert_eq!(a.data, b.data);
    }
    assert_eq!(read_txs.len(), txs.len());
    for (a, b) in read_txs.iter().zip(txs.iter()) {
        assert_eq!(a.data, b.data);
    }
}

#[test]
fn roundtrip_empty_dataset() {
    let files = export_dataset(&Vec::new(), &Vec::new(), &Vec::new());
    let (accounts, objects, txs) = import_dataset(&files).expect("empty dataset must round-trip");
    assert_eq!(accounts.len(), 0);
    assert_eq!(objects.len(), 0);
    assert_eq!(txs.len(), 0);
}

#[test]
fn roundtrip_preserves_order_and_content() {
    let accounts = vec![account(vec![]), account(vec![1, 2, 3]), account(vec![0xff])];
    let objects = vec![genesis_object(vec![9, 9])];
    let txs = vec![
        transaction(vec![5]),
        transaction(vec![]),
        transaction(vec![7, 7, 7]),
    ];
    let files = export_dataset(&accounts, &objects, &txs);
    let (read_accounts, _, read_txs) = import_dataset(&files).expect("import must succeed");
    assert_eq!(read_accounts.len(), 3);
    assert_eq!(read_accounts[0].data, Vec::<u8>::new());
    assert_eq!(read_accounts[1].data, vec![1, 2, 3]);
    assert_eq!(read_accounts[2].data, vec![0xff]);
    assert_eq!(read_txs.len(), 3);
    assert_eq!(read_txs[0].data, vec![5]);
    assert_eq!(read_txs[1].data, Vec::<u8>::new());
    assert_eq!(read_txs[2].data, vec![7, 7, 7]);
}

#[test]
fn import_rejects_corrupt_artifacts() {
    let files = export_dataset(&vec![account(vec![1, 2, 3])], &Vec::new(), &Vec::new());

    // Truncating an artifact must make the import fail.
    let mut truncated = DatasetFiles {
        accounts: files.accounts.clone(),
        genesis_objects: files.genesis_objects.clone(),
        transactions: files.transactions.clone(),
    };
    truncated.accounts.pop();
    assert!(import_dataset(&truncated).is_none());

    // Trailing junk must make the import fail too: the decoder is an exact
    // inverse, not a prefix reader.
    let mut padded = DatasetFiles {
        accounts: files.accounts.clone(),
        genesis_objects: files.genesis_objects.clone(),
        transactions: files.transactions.clone(),
    };
    padded.transactions.push(0);
    assert!(import_dataset(&padded).is_none());

    // Too few bytes for even a record count.
    let empty = DatasetFiles {
        accounts: Vec::new(),
        genesis_objects: files.genesis_objects.clone(),
        transactions: files.transactions.clone(),
    };
    assert!(import_dataset(&empty).is_none());

    // The intact bytes still import.
    assert!(import_dataset(&files).is_some());
}
