//! End-to-end tests of the execution pipeline: mining, storage,
//! conflicts, the coordinator, and the notification fan-out.

use ethexec::address::Address;
use ethexec::block::encode_header;
use ethexec::broadcast::{Broadcast, Recv};
use ethexec::execution::{
    Execution, ExecutionAccountChange, ExecutionResult, SlotChange, ValueChange,
};
use ethexec::executor::{EthExecutor, Evm, EvmError, RejectReason, TransactOutcome};
use ethexec::log::Log;
use ethexec::log_filter::{LogFilter, LogFilterTopicCombination};
use ethexec::miner::mine_with_one_transaction;
use ethexec::pg_rows::{PostgresLogs, PostgresTopic, PostgresTransaction};
use ethexec::storage::{BlockSelector, InMemoryStorage, StorageError};
use ethexec::transaction::{EvmInput, StoragePointInTime, TransactionInput};
use ethexec::values::{BlockNumber, Gas, LogTopic, Nonce, SlotIndex, SlotValue, Wei};

fn addr(b: u8) -> Address {
    Address::new([b; 20])
}

fn tx_input(signer: Address, nonce: u64, hash_byte: u8) -> TransactionInput {
    TransactionInput {
        hash: ethexec::hash::Hash::new([hash_byte; 32]),
        nonce: Nonce(nonce),
        from: signer,
        signer,
        to: Some(addr(0x99)),
        input: vec![],
        gas: Gas(21000),
        value: Wei(1),
        chain_id: 1,
        v: 27,
        r: [0u8; 32],
        s: [0u8; 32],
    }
}

/// A transfer execution: the sender observed `observed_nonce` and bumps it.
fn transfer_execution(sender: Address, observed_nonce: u64, logs: Vec<Log>) -> Execution {
    Execution {
        result: ExecutionResult::Success,
        output: vec![],
        gas_used: Gas(21000),
        logs,
        changes: vec![ExecutionAccountChange {
            address: sender,
            nonce: ValueChange { original: Nonce(observed_nonce), current: Nonce(observed_nonce + 1) },
            balance: ValueChange { original: Wei(0), current: Wei(0) },
            bytecode: ValueChange { original: None, current: None },
            slots: vec![],
        }],
        block_timestamp_in_use: 0,
    }
}

/// An EVM stub that always observes the same nonce for its sender.
struct FixedEvm {
    sender: Address,
    observed_nonce: u64,
    logs: Vec<Log>,
}

impl Evm for FixedEvm {
    fn execute(&mut self, _input: EvmInput) -> Result<Execution, EvmError> {
        Ok(transfer_execution(self.sender, self.observed_nonce, self.logs.clone()))
    }
}

/// An EVM stub that always fails.
struct BrokenEvm;

impl Evm for BrokenEvm {
    fn execute(&mut self, _input: EvmInput) -> Result<Execution, EvmError> {
        Err(EvmError::Crashed)
    }
}

#[test]
fn miner_builds_genesis_block() {
    let sender = addr(1);
    let block = mine_with_one_transaction(
        None,
        tx_input(sender, 0, 0xaa),
        transfer_execution(sender, 0, vec![]),
        1234,
    );
    assert_eq!(block.header.number, BlockNumber(0));
    assert_eq!(block.header.parent_hash, ethexec::hash::Hash::zero());
    assert_eq!(block.header.timestamp, 1234);
    assert_eq!(block.header.miner, Address::coinbase());
    assert_eq!(block.transactions.len(), 1);
    assert_eq!(block.transactions[0].transaction_index.0, 0);
}

#[test]
fn miner_timestamp_strictly_increases() {
    let sender = addr(1);
    let genesis = mine_with_one_transaction(
        None,
        tx_input(sender, 0, 0xaa),
        transfer_execution(sender, 0, vec![]),
        1234,
    );
    // a clock that went backwards still yields a later timestamp
    let next = mine_with_one_transaction(
        Some(&genesis.header),
        tx_input(sender, 1, 0xab),
        transfer_execution(sender, 1, vec![]),
        1000,
    );
    assert_eq!(next.header.timestamp, genesis.header.timestamp + 1);
    assert!(next.header.timestamp > genesis.header.timestamp);
    assert_eq!(next.header.parent_hash, genesis.header.hash);
    assert_eq!(next.header.number, BlockNumber(1));
}

#[test]
fn miner_drops_ignored_addresses() {
    let sender = addr(1);
    let mut execution = transfer_execution(sender, 0, vec![]);
    execution.changes.push(ExecutionAccountChange {
        address: Address::coinbase(),
        nonce: ValueChange { original: Nonce(0), current: Nonce(0) },
        balance: ValueChange { original: Wei(0), current: Wei(5) },
        bytecode: ValueChange { original: None, current: None },
        slots: vec![],
    });
    execution.changes.push(ExecutionAccountChange {
        address: Address::zero(),
        nonce: ValueChange { original: Nonce(0), current: Nonce(0) },
        balance: ValueChange { original: Wei(0), current: Wei(5) },
        bytecode: ValueChange { original: None, current: None },
        slots: vec![],
    });
    let block = mine_with_one_transaction(None, tx_input(sender, 0, 0xaa), execution, 1);
    let changes = &block.transactions[0].execution.changes;
    assert_eq!(changes.len(), 1);
    assert_eq!(changes[0].address, sender);
}

#[test]
fn miner_numbers_logs_in_emission_order() {
    let sender = addr(1);
    let logs = vec![
        Log { address: sender, topics: vec![LogTopic([0x10; 32])], data: vec![1] },
        Log { address: sender, topics: vec![], data: vec![2] },
    ];
    let block = mine_with_one_transaction(
        None,
        tx_input(sender, 0, 0xaa),
        transfer_execution(sender, 0, logs),
        1,
    );
    let mined = &block.transactions[0].logs;
    assert_eq!(mined.len(), 2);
    assert_eq!(mined[0].log_index.0, 0);
    assert_eq!(mined[1].log_index.0, 1);
    assert_eq!(mined[0].transaction_index.0, 0);
    assert_eq!(mined[0].block_number, block.header.number);
    assert_eq!(mined[0].block_hash, block.header.hash);
    assert_eq!(mined[0].log.data, vec![1]);
    assert_eq!(mined[1].log.data, vec![2]);
}

#[test]
fn block_hash_is_keccak_of_header_encoding() {
    let sender = addr(1);
    let block = mine_with_one_transaction(
        None,
        tx_input(sender, 0, 0xaa),
        transfer_execution(sender, 0, vec![]),
        1234,
    );
    let encoded = encode_header(&block.header);
    let digest = ethers_core::utils::keccak256(&encoded);
    assert_eq!(block.header.hash, ethexec::hash::Hash::new(digest));
}

#[test]
fn save_block_checks_number_and_parent() {
    let sender = addr(1);
    let mut storage = InMemoryStorage::new();
    let genesis = mine_with_one_transaction(
        None,
        tx_input(sender, 0, 0xaa),
        transfer_execution(sender, 0, vec![]),
        1,
    );
    let bad_number = mine_with_one_transaction(
        Some(&genesis.header),
        tx_input(sender, 1, 0xab),
        transfer_execution(sender, 1, vec![]),
        2,
    );
    // saving block number 1 on an empty chain is refused
    assert!(matches!(storage.save_block(bad_number), Err(StorageError::NumberMismatch)));
    assert!(storage.save_block(genesis).is_ok());
    // saving the genesis again is refused
    let genesis_again = mine_with_one_transaction(
        None,
        tx_input(sender, 0, 0xaa),
        transfer_execution(sender, 0, vec![]),
        1,
    );
    assert!(matches!(storage.save_block(genesis_again), Err(StorageError::NumberMismatch)));
}

#[test]
fn save_block_applies_account_changes() {
    let sender = addr(1);
    let mut storage = InMemoryStorage::new();
    let mut execution = transfer_execution(sender, 0, vec![]);
    execution.changes[0].balance = ValueChange { original: Wei(0), current: Wei(42) };
    execution.changes[0].slots = vec![SlotChange {
        index: SlotIndex([3u8; 32]),
        change: ValueChange {
            original: SlotValue([0u8; 32]),
            current: SlotValue([7u8; 32]),
        },
    }];
    let block = mine_with_one_transaction(None, tx_input(sender, 0, 0xaa), execution, 1);
    storage.save_block(block).unwrap();
    let account = storage.read_account(&sender, StoragePointInTime::Present);
    assert_eq!(account.nonce, Nonce(1));
    assert_eq!(account.balance, Wei(42));
    let slot = storage.read_slot(&sender, &SlotIndex([3u8; 32]), StoragePointInTime::Present);
    assert_eq!(slot.value, SlotValue([7u8; 32]));
    // an untouched slot reads as zero
    let other = storage.read_slot(&sender, &SlotIndex([4u8; 32]), StoragePointInTime::Present);
    assert_eq!(other.value, SlotValue([0u8; 32]));
}

#[test]
fn point_in_time_reads_see_past_state() {
    let sender = addr(1);
    let mut storage = InMemoryStorage::new();
    let mut first = transfer_execution(sender, 0, vec![]);
    first.changes[0].balance = ValueChange { original: Wei(0), current: Wei(10) };
    let genesis = mine_with_one_transaction(None, tx_input(sender, 0, 0xaa), first, 1);
    let genesis_header = genesis.header;
    storage.save_block(genesis).unwrap();
    let mut second = transfer_execution(sender, 1, vec![]);
    second.changes[0].balance = ValueChange { original: Wei(10), current: Wei(20) };
    let next = mine_with_one_transaction(
        Some(&genesis_header),
        tx_input(sender, 1, 0xab),
        second,
        2,
    );
    storage.save_block(next).unwrap();
    let past = storage.read_account(&sender, StoragePointInTime::Past(BlockNumber(0)));
    assert_eq!(past.balance, Wei(10));
    let present = storage.read_account(&sender, StoragePointInTime::Present);
    assert_eq!(present.balance, Wei(20));
}

#[test]
fn check_conflicts_reports_divergence() {
    let sender = addr(1);
    let mut storage = InMemoryStorage::new();
    let block = mine_with_one_transaction(
        None,
        tx_input(sender, 0, 0xaa),
        transfer_execution(sender, 0, vec![]),
        1,
    );
    storage.save_block(block).unwrap();
    // a fresh execution that observed the stale nonce conflicts
    let stale = transfer_execution(sender, 0, vec![]);
    assert!(storage.check_conflicts(&stale).is_some());
    // one that observed the committed nonce does not
    let fresh = transfer_execution(sender, 1, vec![]);
    assert!(storage.check_conflicts(&fresh).is_none());
}

#[test]
fn zero_signer_is_rejected_and_nothing_changes() {
    let mut executor = EthExecutor::new(InMemoryStorage::new());
    let mut evm = FixedEvm { sender: Address::zero(), observed_nonce: 0, logs: vec![] };
    let outcome = executor.transact(&mut evm, tx_input(Address::zero(), 0, 0xaa), 1);
    assert!(matches!(outcome, TransactOutcome::Rejected(RejectReason::ZeroSigner)));
    assert!(executor.storage.read_block(&BlockSelector::Latest).is_none());
}

#[test]
fn genesis_append_delivers_one_head() {
    let sender = addr(1);
    let mut executor = EthExecutor::new(InMemoryStorage::new());
    let mut heads = executor.subscribe_to_new_heads();
    let mut evm = FixedEvm { sender, observed_nonce: 0, logs: vec![] };
    let outcome = executor.transact(&mut evm, tx_input(sender, 0, 0xaa), 1);
    assert!(matches!(outcome, TransactOutcome::Mined { .. }));
    let genesis = executor.storage.read_block(&BlockSelector::Number(BlockNumber(0)));
    let genesis = genesis.expect("the genesis block must exist");
    assert_eq!(genesis.header.parent_hash, ethexec::hash::Hash::zero());
    match executor.block_notifier.recv(&mut heads) {
        Recv::Received(h) => assert_eq!(h.number, BlockNumber(0)),
        other => panic!("expected one head event, got {:?}", other),
    }
    assert!(matches!(executor.block_notifier.recv(&mut heads), Recv::Empty));
}

#[test]
fn two_transfers_append_two_blocks_in_order() {
    let sender = addr(1);
    let other = addr(2);
    let mut executor = EthExecutor::new(InMemoryStorage::new());
    let mut heads = executor.subscribe_to_new_heads();
    let mut evm1 = FixedEvm { sender, observed_nonce: 0, logs: vec![] };
    let mut evm2 = FixedEvm { sender: other, observed_nonce: 0, logs: vec![] };
    assert!(matches!(
        executor.transact(&mut evm1, tx_input(sender, 0, 0xaa), 1),
        TransactOutcome::Mined { .. }
    ));
    assert!(matches!(
        executor.transact(&mut evm2, tx_input(other, 0, 0xbb), 2),
        TransactOutcome::Mined { .. }
    ));
    let latest = executor.storage.read_block(&BlockSelector::Latest).unwrap();
    assert_eq!(latest.header.number, BlockNumber(1));
    match executor.block_notifier.recv(&mut heads) {
        Recv::Received(h) => assert_eq!(h.number, BlockNumber(0)),
        other => panic!("expected the genesis head, got {:?}", other),
    }
    match executor.block_notifier.recv(&mut heads) {
        Recv::Received(h) => assert_eq!(h.number, BlockNumber(1)),
        other => panic!("expected the second head, got {:?}", other),
    }
}

#[test]
fn stale_observations_exhaust_the_retry_budget() {
    let sender = addr(1);
    let mut executor = EthExecutor::new(InMemoryStorage::new());
    let mut evm = FixedEvm { sender, observed_nonce: 0, logs: vec![] };
    assert!(matches!(
        executor.transact(&mut evm, tx_input(sender, 0, 0xaa), 1),
        TransactOutcome::Mined { .. }
    ));
    // the same sender submits again, but its EVM keeps observing nonce 0,
    // which the mined block outdated: every attempt conflicts
    let outcome = executor.transact(&mut evm, tx_input(sender, 0, 0xab), 2);
    assert!(matches!(outcome, TransactOutcome::Exhausted));
    let latest = executor.storage.read_block(&BlockSelector::Latest).unwrap();
    assert_eq!(latest.header.number, BlockNumber(0));
}

#[test]
fn failed_evm_is_surfaced() {
    let sender = addr(1);
    let mut executor = EthExecutor::new(InMemoryStorage::new());
    let mut evm = BrokenEvm;
    let outcome = executor.transact(&mut evm, tx_input(sender, 0, 0xaa), 1);
    assert!(matches!(outcome, TransactOutcome::Failed(EvmError::Crashed)));
    assert!(executor.storage.read_block(&BlockSelector::Latest).is_none());
}

#[test]
fn call_does_not_mine() {
    let sender = addr(1);
    let mut executor = EthExecutor::new(InMemoryStorage::new());
    let mut evm = FixedEvm { sender, observed_nonce: 0, logs: vec![] };
    assert!(matches!(
        executor.transact(&mut evm, tx_input(sender, 0, 0xaa), 1),
        TransactOutcome::Mined { .. }
    ));
    let mut heads = executor.subscribe_to_new_heads();
    let call_input = ethexec::transaction::CallInput {
        from: sender,
        to: Some(addr(0x99)),
        data: vec![0x01],
    };
    let result = executor.call(&mut evm, call_input, StoragePointInTime::Present).unwrap();
    assert!(matches!(result.result, ExecutionResult::Success));
    let latest = executor.storage.read_block(&BlockSelector::Latest).unwrap();
    assert_eq!(latest.header.number, BlockNumber(0));
    assert!(matches!(executor.block_notifier.recv(&mut heads), Recv::Empty));
}

#[test]
fn mined_logs_answer_filters() {
    let sender = addr(1);
    let t0 = LogTopic([0x10; 32]);
    let t1 = LogTopic([0x11; 32]);
    let t2 = LogTopic([0x12; 32]);
    let mut executor = EthExecutor::new(InMemoryStorage::new());
    let mut evm = FixedEvm {
        sender,
        observed_nonce: 0,
        logs: vec![Log { address: sender, topics: vec![t0, t1], data: vec![0xff] }],
    };
    assert!(matches!(
        executor.transact(&mut evm, tx_input(sender, 0, 0xaa), 1),
        TransactOutcome::Mined { .. }
    ));
    let matching = executor.storage.read_logs(&LogFilter {
        from_block: BlockNumber(0),
        to_block: None,
        addresses: vec![sender],
        topics_combinations: vec![LogFilterTopicCombination(vec![(0, t0)])],
    });
    assert_eq!(matching.len(), 1);
    assert_eq!(matching[0].log.data, vec![0xff]);
    assert_eq!(matching[0].block_number, BlockNumber(0));
    let none = executor.storage.read_logs(&LogFilter {
        from_block: BlockNumber(0),
        to_block: None,
        addresses: vec![sender],
        topics_combinations: vec![LogFilterTopicCombination(vec![(0, t0), (1, t2)])],
    });
    assert!(none.is_empty());
}

#[test]
fn mined_logs_are_announced_in_order() {
    let sender = addr(1);
    let mut executor = EthExecutor::new(InMemoryStorage::new());
    let mut log_events = executor.subscribe_to_logs();
    let mut evm = FixedEvm {
        sender,
        observed_nonce: 0,
        logs: vec![
            Log { address: sender, topics: vec![], data: vec![0] },
            Log { address: sender, topics: vec![], data: vec![1] },
        ],
    };
    assert!(matches!(
        executor.transact(&mut evm, tx_input(sender, 0, 0xaa), 1),
        TransactOutcome::Mined { .. }
    ));
    match executor.log_notifier.recv(&mut log_events) {
        Recv::Received(l) => {
            assert_eq!(l.log_index.0, 0);
            assert_eq!(l.log.data, vec![0]);
        },
        other => panic!("expected the first log, got {:?}", other),
    }
    match executor.log_notifier.recv(&mut log_events) {
        Recv::Received(l) => {
            assert_eq!(l.log_index.0, 1);
            assert_eq!(l.log.data, vec![1]);
        },
        other => panic!("expected the second log, got {:?}", other),
    }
    assert!(matches!(executor.log_notifier.recv(&mut log_events), Recv::Empty));
}

#[test]
fn read_mined_transaction_finds_by_hash() {
    let sender = addr(1);
    let mut executor = EthExecutor::new(InMemoryStorage::new());
    let mut evm = FixedEvm { sender, observed_nonce: 0, logs: vec![] };
    assert!(matches!(
        executor.transact(&mut evm, tx_input(sender, 0, 0xaa), 1),
        TransactOutcome::Mined { .. }
    ));
    let found = executor.storage.read_mined_transaction(&ethexec::hash::Hash::new([0xaa; 32]));
    assert!(found.is_some());
    assert_eq!(found.unwrap().input.nonce, Nonce(0));
    assert!(executor.storage.read_mined_transaction(&ethexec::hash::Hash::new([0xbb; 32])).is_none());
}

#[test]
fn read_block_by_hash_and_number_agree() {
    let sender = addr(1);
    let mut executor = EthExecutor::new(InMemoryStorage::new());
    let mut evm = FixedEvm { sender, observed_nonce: 0, logs: vec![] };
    assert!(matches!(
        executor.transact(&mut evm, tx_input(sender, 0, 0xaa), 1),
        TransactOutcome::Mined { .. }
    ));
    let by_number = executor.storage.read_block(&BlockSelector::Number(BlockNumber(0)));
    let hash = by_number.unwrap().header.hash;
    let by_hash = executor.storage.read_block(&BlockSelector::Hash(hash));
    assert!(by_hash.is_some());
    assert_eq!(by_hash.unwrap().header.number, BlockNumber(0));
    assert!(executor.storage.read_block(&BlockSelector::Hash(ethexec::hash::Hash::new([9u8; 32]))).is_none());
}

#[test]
fn lagging_subscriber_loses_oldest_events() {
    let mut channel: Broadcast<u64> = Broadcast::new(2);
    let mut sub = channel.subscribe();
    channel.send(10);
    channel.send(11);
    channel.send(12);
    channel.send(13);
    match channel.recv(&mut sub) {
        Recv::Lagged(n) => assert_eq!(n, 2),
        other => panic!("expected a lag, got {:?}", other),
    }
    match channel.recv(&mut sub) {
        Recv::Received(v) => assert_eq!(*v, 12),
        other => panic!("expected an event, got {:?}", other),
    }
    match channel.recv(&mut sub) {
        Recv::Received(v) => assert_eq!(*v, 13),
        other => panic!("expected an event, got {:?}", other),
    }
    assert!(matches!(channel.recv(&mut sub), Recv::Empty));
}

#[test]
fn rows_flatten_a_mined_transaction() {
    let sender = addr(1);
    let topics = vec![LogTopic([0x10; 32]), LogTopic([0x11; 32])];
    let block = mine_with_one_transaction(
        None,
        tx_input(sender, 0, 0xaa),
        transfer_execution(
            sender,
            0,
            vec![Log { address: sender, topics, data: vec![5] }],
        ),
        1,
    );
    let tx = &block.transactions[0];
    let row = PostgresTransaction::from_mined(tx, block.header.number, block.header.hash);
    assert_eq!(row.hash, ethexec::hash::Hash::new([0xaa; 32]));
    assert_eq!(row.signer_address, sender);
    assert_eq!(row.idx_in_block.0, 0);
    assert_eq!(row.block_number, BlockNumber(0));
    let log_row = PostgresLogs::from_mined(&tx.logs[0]);
    assert_eq!(log_row.address, sender);
    assert_eq!(log_row.data, vec![5]);
    assert_eq!(log_row.log_idx.0, 0);
    let topic_rows = PostgresTopic::rows_of(&tx.logs[0]);
    assert_eq!(topic_rows.len(), 2);
    assert_eq!(topic_rows[0].topic, vec![0x10; 32]);
    assert_eq!(topic_rows[1].topic, vec![0x11; 32]);
}

#[test]
fn next_block_number_follows_the_head() {
    let sender = addr(1);
    let mut storage = InMemoryStorage::new();
    assert_eq!(storage.next_block_number(), BlockNumber(0));
    let genesis = mine_with_one_transaction(
        None,
        tx_input(sender, 0, 0xaa),
        transfer_execution(sender, 0, vec![]),
        1,
    );
    storage.save_block(genesis).unwrap();
    assert_eq!(storage.next_block_number(), BlockNumber(1));
}

#[test]
fn chain_links_blocks_by_hash_and_time() {
    let first = addr(1);
    let second = addr(2);
    let mut executor = EthExecutor::new(InMemoryStorage::new());
    let mut evm1 = FixedEvm { sender: first, observed_nonce: 0, logs: vec![] };
    let mut evm2 = FixedEvm { sender: second, observed_nonce: 0, logs: vec![] };
    assert!(matches!(
        executor.transact(&mut evm1, tx_input(first, 0, 0xaa), 100),
        TransactOutcome::Mined { .. }
    ));
    assert!(matches!(
        executor.transact(&mut evm2, tx_input(second, 0, 0xbb), 100),
        TransactOutcome::Mined { .. }
    ));
    let b0 = executor.storage.read_block(&BlockSelector::Number(BlockNumber(0))).unwrap().header;
    let b1 = executor.storage.read_block(&BlockSelector::Number(BlockNumber(1))).unwrap().header;
    assert_eq!(b1.parent_hash, b0.hash);
    assert!(b1.timestamp > b0.timestamp);
    assert_eq!(b0.number, BlockNumber(0));
    assert_eq!(b1.number, BlockNumber(1));
}

#[test]
fn read_logs_orders_across_blocks() {
    let first = addr(1);
    let second = addr(2);
    let mut executor = EthExecutor::new(InMemoryStorage::new());
    let mut evm1 = FixedEvm {
        sender: first,
        observed_nonce: 0,
        logs: vec![Log { address: first, topics: vec![], data: vec![0] }],
    };
    let mut evm2 = FixedEvm {
        sender: second,
        observed_nonce: 0,
        logs: vec![
            Log { address: second, topics: vec![], data: vec![1] },
            Log { address: second, topics: vec![], data: vec![2] },
        ],
    };
    assert!(matches!(
        executor.transact(&mut evm1, tx_input(first, 0, 0xaa), 1),
        TransactOutcome::Mined { .. }
    ));
    assert!(matches!(
        executor.transact(&mut evm2, tx_input(second, 0, 0xbb), 2),
        TransactOutcome::Mined { .. }
    ));
    let all = executor.storage.read_logs(&LogFilter {
        from_block: BlockNumber(0),
        to_block: None,
        addresses: vec![],
        topics_combinations: vec![],
    });
    assert_eq!(all.len(), 3);
    assert_eq!(all[0].block_number, BlockNumber(0));
    assert_eq!(all[0].log_index.0, 0);
    assert_eq!(all[1].block_number, BlockNumber(1));
    assert_eq!(all[1].log_index.0, 0);
    assert_eq!(all[2].block_number, BlockNumber(1));
    assert_eq!(all[2].log_index.0, 1);
    // the block range bounds what is returned
    let only_second = executor.storage.read_logs(&LogFilter {
        from_block: BlockNumber(1),
        to_block: Some(BlockNumber(1)),
        addresses: vec![],
        topics_combinations: vec![],
    });
    assert_eq!(only_second.len(), 2);
}
