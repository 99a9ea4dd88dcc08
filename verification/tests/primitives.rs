//! Tests of the value primitives: addresses, hashes, hex forms, accounts,
//! and the log filter matcher.

use ethexec::account::Account;
use ethexec::address::Address;
use ethexec::config::{Config, ConfigError, StorageConfig};
use ethexec::hash::HashParseError;
use ethexec::log::{Log, LogMined};
use ethexec::log_filter::{LogFilter, LogFilterTopicCombination};
use ethexec::values::{BlockNumber, Index, LogTopic, Nonce, Wei};

fn topic(b: u8) -> LogTopic {
    LogTopic([b; 32])
}

fn mined_log(addr: Address, topics: Vec<LogTopic>, number: u64) -> LogMined {
    LogMined {
        log: Log { address: addr, topics, data: vec![1, 2, 3] },
        transaction_hash: ethexec::hash::Hash::new([9u8; 32]),
        transaction_index: Index(0),
        log_index: Index(0),
        block_number: BlockNumber(number),
        block_hash: ethexec::hash::Hash::new([8u8; 32]),
    }
}

#[test]
fn zero_address_is_ignored() {
    let zero = Address::zero();
    assert!(zero.is_zero());
    assert!(!zero.is_coinbase());
    assert!(zero.is_ignored());
}

#[test]
fn coinbase_address_is_ignored() {
    let coinbase = Address::coinbase();
    assert!(coinbase.is_coinbase());
    assert!(!coinbase.is_zero());
    assert!(coinbase.is_ignored());
    let mut expected = [0u8; 20];
    expected[19] = 0xff;
    assert_eq!(coinbase.to_bytes(), expected);
}

#[test]
fn ordinary_address_is_not_ignored() {
    let addr = Address::new([7u8; 20]);
    assert!(!addr.is_zero());
    assert!(!addr.is_coinbase());
    assert!(!addr.is_ignored());
}

#[test]
fn address_equality_is_by_content() {
    assert_eq!(Address::new([7u8; 20]), Address::new([7u8; 20]));
    assert_ne!(Address::new([7u8; 20]), Address::new([8u8; 20]));
}

#[test]
fn hash_displays_as_prefixed_hex() {
    let h = ethexec::hash::Hash::new([0xabu8; 32]);
    let shown = h.to_hex();
    let mut expected = String::from("0x");
    for _ in 0..32 {
        expected.push_str("ab");
    }
    assert_eq!(shown, expected);
}

#[test]
fn hash_display_matches_outside_encoder() {
    let h = ethexec::hash::Hash::new([0x01u8; 32]);
    assert_eq!(h.to_hex(), const_hex::encode_prefixed([0x01u8; 32]));
}

#[test]
fn hash_parses_with_and_without_prefix() {
    let h = ethexec::hash::Hash::new([0xabu8; 32]);
    let shown = h.to_hex();
    let parsed = ethexec::hash::Hash::from_str(&shown).unwrap();
    assert_eq!(parsed, h);
    let bare: String = shown.chars().skip(2).collect();
    let parsed_bare = ethexec::hash::Hash::from_str(&bare).unwrap();
    assert_eq!(parsed_bare, h);
}

#[test]
fn hash_parses_uppercase_digits() {
    let input = format!("0x{}", "AB".repeat(32));
    let parsed = ethexec::hash::Hash::from_str(&input).unwrap();
    assert_eq!(parsed, ethexec::hash::Hash::new([0xabu8; 32]));
}

#[test]
fn hash_parse_rejects_wrong_length() {
    let short = format!("0x{}", "ab".repeat(31));
    assert_eq!(ethexec::hash::Hash::from_str(&short), Err(HashParseError::InvalidFormat));
    let long = format!("0x{}", "ab".repeat(33));
    assert_eq!(ethexec::hash::Hash::from_str(&long), Err(HashParseError::InvalidFormat));
}

#[test]
fn hash_parse_rejects_bad_alphabet() {
    let bad = format!("0x{}", "zz".repeat(32));
    assert_eq!(ethexec::hash::Hash::from_str(&bad), Err(HashParseError::InvalidFormat));
}

#[test]
fn random_hash_displays_as_hex() {
    let h = ethexec::hash::Hash::new_random();
    let shown = h.to_hex();
    assert_eq!(shown.len(), 66);
    assert!(shown.starts_with("0x"));
}

#[test]
fn absent_account_is_default() {
    let a = Account::absent(Address::new([1u8; 20]));
    assert_eq!(a.nonce, Nonce(0));
    assert_eq!(a.balance, Wei(0));
    assert!(a.bytecode.is_none());
    assert!(!a.is_contract());
}

#[test]
fn contract_needs_nonempty_bytecode() {
    let mut a = Account::absent(Address::new([1u8; 20]));
    a.bytecode = Some(vec![]);
    assert!(!a.is_contract());
    a.bytecode = Some(vec![0x60]);
    assert!(a.is_contract());
}

#[test]
fn filter_matches_by_topic_combination() {
    let addr = Address::new([5u8; 20]);
    let log = mined_log(addr, vec![topic(0x10), topic(0x11)], 0);
    let filter = LogFilter {
        from_block: BlockNumber(0),
        to_block: None,
        addresses: vec![addr],
        topics_combinations: vec![LogFilterTopicCombination(vec![(0, topic(0x10))])],
    };
    assert!(filter.matches(&log));
    let wrong = LogFilter {
        from_block: BlockNumber(0),
        to_block: None,
        addresses: vec![addr],
        topics_combinations: vec![
            LogFilterTopicCombination(vec![(0, topic(0x10)), (1, topic(0x12))]),
        ],
    };
    assert!(!wrong.matches(&log));
}

#[test]
fn filter_requires_constrained_position_to_exist() {
    let addr = Address::new([5u8; 20]);
    let log = mined_log(addr, vec![topic(0x10)], 0);
    let filter = LogFilter {
        from_block: BlockNumber(0),
        to_block: None,
        addresses: vec![],
        topics_combinations: vec![LogFilterTopicCombination(vec![(3, topic(0x10))])],
    };
    assert!(!filter.matches(&log));
}

#[test]
fn filter_block_range_is_inclusive() {
    let addr = Address::new([5u8; 20]);
    let filter = LogFilter {
        from_block: BlockNumber(2),
        to_block: Some(BlockNumber(4)),
        addresses: vec![],
        topics_combinations: vec![],
    };
    assert!(!filter.matches(&mined_log(addr, vec![], 1)));
    assert!(filter.matches(&mined_log(addr, vec![], 2)));
    assert!(filter.matches(&mined_log(addr, vec![], 4)));
    assert!(!filter.matches(&mined_log(addr, vec![], 5)));
}

#[test]
fn filter_empty_addresses_match_any() {
    let filter = LogFilter {
        from_block: BlockNumber(0),
        to_block: None,
        addresses: vec![],
        topics_combinations: vec![],
    };
    assert!(filter.matches(&mined_log(Address::new([1u8; 20]), vec![], 0)));
    assert!(filter.matches(&mined_log(Address::new([2u8; 20]), vec![], 7)));
}

#[test]
fn filter_rejects_unlisted_address() {
    let filter = LogFilter {
        from_block: BlockNumber(0),
        to_block: None,
        addresses: vec![Address::new([1u8; 20])],
        topics_combinations: vec![],
    };
    assert!(!filter.matches(&mined_log(Address::new([2u8; 20]), vec![], 0)));
    assert!(filter.matches(&mined_log(Address::new([1u8; 20]), vec![], 0)));
}

#[test]
fn storage_config_parses_known_names() {
    assert!(matches!(StorageConfig::from_str("inmemory"), Ok(StorageConfig::InMemory)));
    match StorageConfig::from_str("postgres://db/chain") {
        Ok(StorageConfig::Postgres { url }) => assert_eq!(url, "postgres://db/chain"),
        other => panic!("expected a postgres config, got {:?}", other),
    }
    assert!(matches!(StorageConfig::from_str("bogus"), Err(ConfigError::UnknownStorage)));
    assert!(matches!(StorageConfig::from_str(""), Err(ConfigError::UnknownStorage)));
}

#[test]
fn default_config_is_valid() {
    let c = Config::defaults();
    assert!(c.is_valid());
    assert_eq!(c.address, "0.0.0.0:3000");
}
