use benchmark_executor::config::{AttrBag, Role};
use benchmark_executor::dataset::Transaction;
use benchmark_executor::decimal::{parse_duration, u64_to_string, ParseDurationError};
use benchmark_executor::workload::{materialize_transactions, Workload, WorkloadError};

#[test]
fn workload_volume_is_rate_times_duration() {
    let workload = Workload::new(300, 10);
    assert_eq!(workload.tx_count, 3000);
    assert_eq!(Workload::new(0, 300).tx_count, 0);
    assert_eq!(Workload::new(1000, 300).tx_count, 300_000);
}

#[test]
fn materialize_accepts_exact_volume_only() {
    let workload = Workload::new(3, 2);
    let produced: Vec<Transaction> = (0..6u8).map(|i| Transaction { data: vec![i] }).collect();
    let txs = materialize_transactions(&workload, produced).expect("six for six");
    assert_eq!(txs.len(), 6);
    assert_eq!(txs[5].data, vec![5]);

    let short: Vec<Transaction> = (0..5u8).map(|i| Transaction { data: vec![i] }).collect();
    assert!(matches!(
        materialize_transactions(&workload, short),
        Err(WorkloadError::VolumeMismatch)
    ));
}

#[test]
fn parse_duration_reads_seconds() {
    assert_eq!(parse_duration("300"), Ok(300));
    assert_eq!(parse_duration("0"), Ok(0));
    assert_eq!(parse_duration("007"), Ok(7));
    assert_eq!(parse_duration("+3"), Ok(3));
    assert_eq!(parse_duration("+300"), Ok(300));
    assert_eq!(parse_duration("18446744073709551615"), Ok(u64::MAX));
}

#[test]
fn parse_duration_rejects_bad_input() {
    assert_eq!(parse_duration(""), Err(ParseDurationError::Empty));
    assert_eq!(parse_duration("12a"), Err(ParseDurationError::InvalidDigit));
    assert_eq!(parse_duration("-3"), Err(ParseDurationError::InvalidDigit));
    assert_eq!(parse_duration(" 3"), Err(ParseDurationError::InvalidDigit));
    assert_eq!(parse_duration("+"), Err(ParseDurationError::InvalidDigit));
    assert_eq!(parse_duration("++3"), Err(ParseDurationError::InvalidDigit));
    assert_eq!(parse_duration("3+4"), Err(ParseDurationError::InvalidDigit));
    assert_eq!(
        parse_duration("18446744073709551616"),
        Err(ParseDurationError::Overflow)
    );
    assert_eq!(
        parse_duration("99999999999999999999999"),
        Err(ParseDurationError::Overflow)
    );
}

#[test]
fn u64_renders_as_decimal_digits() {
    assert_eq!(u64_to_string(0), "0");
    assert_eq!(u64_to_string(7), "7");
    assert_eq!(u64_to_string(300), "300");
    assert_eq!(u64_to_string(u64::MAX), "18446744073709551615");
}

#[test]
fn role_tags_resolve_and_render() {
    assert_eq!(Role::from_tag("SW"), Some(Role::Sequencing));
    assert_eq!(Role::from_tag("EW"), Some(Role::Execution));
    assert_eq!(Role::from_tag("XX"), None);
    assert_eq!(Role::from_tag(""), None);
    assert_eq!(Role::Sequencing.tag(), "SW");
    assert_eq!(Role::Execution.tag(), "EW");
    assert_eq!(Role::from_tag(Role::Sequencing.tag()), Some(Role::Sequencing));
}

#[test]
fn attr_bag_inserts_and_replaces() {
    let mut bag = AttrBag::new();
    assert!(bag.get(&"tx_count".to_string()).is_none());
    bag.insert("tx_count".to_string(), "300".to_string());
    bag.insert("duration".to_string(), "10".to_string());
    assert_eq!(bag.get(&"tx_count".to_string()), Some(&"300".to_string()));
    assert_eq!(bag.get(&"duration".to_string()), Some(&"10".to_string()));
    assert_eq!(bag.len(), 2);
    bag.insert("tx_count".to_string(), "400".to_string());
    assert_eq!(bag.get(&"tx_count".to_string()), Some(&"400".to_string()));
    assert_eq!(bag.len(), 2);
    assert!(bag.get(&"missing".to_string()).is_none());
}
